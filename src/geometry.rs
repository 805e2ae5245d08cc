use vstd::prelude::*;

verus! {

/// A position in the world, in whole world units.
#[derive(Clone, Copy, Debug, PartialEq, Eq, Structural)]
pub struct Point {
    pub x: i32,
    pub y: i32,
}

/// A direction in the plane. Its length is irrelevant wherever it is used as
/// a direction; a zero vector points nowhere.
#[derive(Clone, Copy, Debug, PartialEq, Eq, Structural)]
pub struct Direction {
    pub x: i16,
    pub y: i16,
}

/// An axis-aligned box, given by its half-extents around an entity's position.
#[derive(Clone, Copy, Debug, PartialEq, Eq, Structural)]
pub struct Collider {
    pub half_width: u32,
    pub half_height: u32,
}

/// Squared euclidean distance between two points.
pub open spec fn dist_sq(a: Point, b: Point) -> int {
    (a.x - b.x) * (a.x - b.x) + (a.y - b.y) * (a.y - b.y)
}

/// `r` is the integer square root of `n`, rounded down.
pub open spec fn is_floor_sqrt(n: int, r: int) -> bool {
    0 <= r && r * r <= n && n < (r + 1) * (r + 1)
}

pub open spec fn abs(v: int) -> int {
    if v < 0 { -v } else { v }
}

/// Two boxes overlap when, on both axes, their centres are closer than the sum
/// of their half-extents. Touching edges do not count.
pub open spec fn boxes_overlap(a: Point, ac: Collider, b: Point, bc: Collider) -> bool {
    abs(a.x - b.x) < ac.half_width + bc.half_width
        && abs(a.y - b.y) < ac.half_height + bc.half_height
}

/// Squared distance between two points, exact.
pub fn distance_squared(a: Point, b: Point) -> (r: u128)
    ensures
        r == dist_sq(a, b),
{
    let dx: i64 = a.x as i64 - b.x as i64;
    let dy: i64 = a.y as i64 - b.y as i64;
    proof {
        assert(0 <= dx * dx <= 0x1_0000_0000_0000_0000) by (nonlinear_arith)
            requires
                -0x1_0000_0000 <= dx <= 0x1_0000_0000,
        ;
        assert(0 <= dy * dy <= 0x1_0000_0000_0000_0000) by (nonlinear_arith)
            requires
                -0x1_0000_0000 <= dy <= 0x1_0000_0000,
        ;
    }
    let sx: u128 = (dx as i128 * dx as i128) as u128;
    let sy: u128 = (dy as i128 * dy as i128) as u128;
    sx + sy
}

/// Whether two axis-aligned boxes overlap.
pub fn aabb_overlap(a: Point, ac: Collider, b: Point, bc: Collider) -> (r: bool)
    ensures
        r == boxes_overlap(a, ac, b, bc),
{
    let dx: i64 = a.x as i64 - b.x as i64;
    let dy: i64 = a.y as i64 - b.y as i64;
    let adx: i64 = if dx < 0 { -dx } else { dx };
    let ady: i64 = if dy < 0 { -dy } else { dy };
    adx < ac.half_width as i64 + bc.half_width as i64 && ady < ac.half_height as i64
        + bc.half_height as i64
}

/// Integer square root, rounded down.
pub fn isqrt(n: u128) -> (r: u64)
    ensures
        is_floor_sqrt(n as int, r as int),
{
    let mut lo: u128 = 0;
    let mut hi: u128 = 0x1_0000_0000_0000_0000;
    assert(n < hi * hi);
    while hi - lo > 1
        invariant
            lo < hi <= 0x1_0000_0000_0000_0000,
            lo * lo <= n,
            n < hi * hi,
        decreases hi - lo,
    {
        let mid: u128 = lo + (hi - lo) / 2;
        assert(mid * mid < 0x1_0000_0000_0000_0000_0000_0000_0000_0000) by (nonlinear_arith)
            requires
                mid < 0x1_0000_0000_0000_0000,
        ;
        if mid * mid <= n {
            lo = mid;
        } else {
            hi = mid;
        }
    }
    assert(hi == lo + 1);
    lo as u64
}

/// `num * speed / den`, rounded toward zero, keeping the sign of `num`.
pub open spec fn scaled_component(num: int, speed: int, den: int) -> int {
    if num < 0 {
        -((-num * speed) / den)
    } else {
        (num * speed) / den
    }
}

/// The integer square root of `n`, rounded down (for `n >= 0`).
pub open spec fn floor_sqrt(n: int) -> int {
    choose|r: int| is_floor_sqrt(n, r)
}

/// A number has one integer square root rounded down.
pub proof fn lemma_floor_sqrt_unique(n: int, r: int)
    requires
        is_floor_sqrt(n, r),
    ensures
        floor_sqrt(n) == r,
{
    let c = floor_sqrt(n);
    assert(is_floor_sqrt(n, c));
    if c < r {
        assert((c + 1) * (c + 1) <= r * r) by (nonlinear_arith)
            requires
                0 <= c,
                c + 1 <= r,
        ;
    } else if r < c {
        assert((r + 1) * (r + 1) <= c * c) by (nonlinear_arith)
            requires
                0 <= r,
                r + 1 <= c,
        ;
    }
}

/// The vector `(dx, dy)` brought to length `speed`: each component is scaled
/// by `speed / len`, where `len` is the vector's length rounded down. A zero
/// vector stays zero.
pub open spec fn scaled_vec(dx: int, dy: int, speed: int) -> (int, int) {
    let len = floor_sqrt(dx * dx + dy * dy);
    if len == 0 {
        (0, 0)
    } else {
        (scaled_component(dx, speed, len), scaled_component(dy, speed, len))
    }
}

proof fn lemma_component_bounded(d: int, other: int, len: int)
    requires
        is_floor_sqrt(d * d + other * other, len),
    ensures
        abs(d) <= len,
{
    if abs(d) > len {
        assert(abs(d) * abs(d) == d * d) by (nonlinear_arith);
        assert((len + 1) * (len + 1) <= abs(d) * abs(d)) by (nonlinear_arith)
            requires
                abs(d) >= len + 1,
                len >= 0,
        ;
        assert(other * other >= 0) by (nonlinear_arith);
    }
}

proof fn lemma_scaled_bounded(d: int, speed: int, len: int)
    requires
        abs(d) <= len,
        len > 0,
        speed >= 0,
    ensures
        abs(scaled_component(d, speed, len)) <= speed,
{
    let a = abs(d);
    assert(a * speed <= len * speed) by (nonlinear_arith)
        requires
            a <= len,
            speed >= 0,
    ;
    assert((a * speed) / len <= (len * speed) / len) by (nonlinear_arith)
        requires
            a * speed <= len * speed,
            len > 0,
    ;
    assert((len * speed) / len == speed) by (nonlinear_arith)
        requires
            len > 0,
    ;
    assert(0 <= (a * speed) / len) by (nonlinear_arith)
        requires
            a >= 0,
            speed >= 0,
            len > 0,
    ;
    if d < 0 {
        assert(-d * speed == a * speed);
    }
}

/// Each component of a vector brought to length `speed` is at most `speed`.
pub proof fn lemma_scaled_vec_bounded(dx: int, dy: int, speed: int)
    requires
        speed >= 0,
    ensures
        abs(scaled_vec(dx, dy, speed).0) <= speed,
        abs(scaled_vec(dx, dy, speed).1) <= speed,
{
    let n = dx * dx + dy * dy;
    assert(dx * dx >= 0 && dy * dy >= 0) by (nonlinear_arith);
    let len = floor_sqrt(n);
    let w = isqrt_witness(n);
    lemma_floor_sqrt_unique(n, w);
    if len != 0 {
        lemma_component_bounded(dx, dy, len);
        lemma_component_bounded(dy, dx, len);
        lemma_scaled_bounded(dx, speed, len);
        lemma_scaled_bounded(dy, speed, len);
    }
}

/// Every non-negative number has an integer square root rounded down.
proof fn isqrt_witness(n: int) -> (r: int)
    requires
        n >= 0,
    ensures
        is_floor_sqrt(n, r),
    decreases n,
{
    if n == 0 {
        assert(is_floor_sqrt(0, 0)) by (nonlinear_arith);
        0
    } else {
        let p = isqrt_witness(n - 1);
        if (p + 1) * (p + 1) <= n {
            assert(n < (p + 2) * (p + 2)) by (nonlinear_arith)
                requires
                    n - 1 < (p + 1) * (p + 1),
                    p >= 0,
            ;
            assert(is_floor_sqrt(n, p + 1));
            p + 1
        } else {
            assert(p * p <= n);
            assert(is_floor_sqrt(n, p));
            p
        }
    }
}

/// The vector `(dx, dy)` brought to length `speed`, as far as whole units allow.
pub fn scale_to(dx: i64, dy: i64, speed: u64) -> (r: (i64, i64))
    requires
        -0x1_0000_0000 <= dx <= 0x1_0000_0000,
        -0x1_0000_0000 <= dy <= 0x1_0000_0000,
        speed <= 0x7fff_ffff_ffff_ffff,
    ensures
        (r.0 as int, r.1 as int) == scaled_vec(dx as int, dy as int, speed as int),
        abs(r.0 as int) <= speed,
        abs(r.1 as int) <= speed,
{
    proof {
        assert(0 <= dx * dx <= 0x1_0000_0000_0000_0000) by (nonlinear_arith)
            requires
                -0x1_0000_0000 <= dx <= 0x1_0000_0000,
        ;
        assert(0 <= dy * dy <= 0x1_0000_0000_0000_0000) by (nonlinear_arith)
            requires
                -0x1_0000_0000 <= dy <= 0x1_0000_0000,
        ;
    }
    let sq: u128 = (dx as i128 * dx as i128) as u128 + (dy as i128 * dy as i128) as u128;
    let len: u64 = isqrt(sq);
    proof {
        lemma_floor_sqrt_unique(dx * dx + dy * dy, len as int);
    }
    if len == 0 {
        return (0, 0);
    }
    proof {
        lemma_component_bounded(dx as int, dy as int, len as int);
        lemma_component_bounded(dy as int, dx as int, len as int);
        lemma_scaled_bounded(dx as int, speed as int, len as int);
        lemma_scaled_bounded(dy as int, speed as int, len as int);
        assert(abs(dx as int) * speed <= 0x1_0000_0000 * 0x7fff_ffff_ffff_ffff) by (nonlinear_arith)
            requires
                abs(dx as int) <= 0x1_0000_0000,
                speed <= 0x7fff_ffff_ffff_ffff,
        ;
        assert(abs(dy as int) * speed <= 0x1_0000_0000 * 0x7fff_ffff_ffff_ffff) by (nonlinear_arith)
            requires
                abs(dy as int) <= 0x1_0000_0000,
                speed <= 0x7fff_ffff_ffff_ffff,
        ;
    }
    let ax: u128 = if dx < 0 { (-(dx as i128)) as u128 } else { dx as u128 };
    let ay: u128 = if dy < 0 { (-(dy as i128)) as u128 } else { dy as u128 };
    let qx: u128 = ax * speed as u128 / len as u128;
    let qy: u128 = ay * speed as u128 / len as u128;
    let rx: i64 = if dx < 0 { -(qx as i64) } else { qx as i64 };
    let ry: i64 = if dy < 0 { -(qy as i64) } else { qy as i64 };
    (rx, ry)
}


/// Distance from `start` to the point of the ray closest to `center`, times
/// the length of `dir`.
pub open spec fn ray_along(start: Point, dir: Direction, center: Point) -> int {
    (center.x - start.x) * dir.x + (center.y - start.y) * dir.y
}

pub open spec fn dir_len_sq(dir: Direction) -> int {
    dir.x * dir.x + dir.y * dir.y
}

/// How far inside the circle the ray passes, squared and scaled: `radius²`
/// less the squared distance between the ray's line and `center`, times the
/// squared length of `dir`. Negative when the line misses the circle.
pub open spec fn ray_clearance(start: Point, dir: Direction, center: Point, radius: u32) -> int {
    let d = dir_len_sq(dir);
    let p = ray_along(start, dir, center);
    radius * radius * d - (dist_sq(start, center) * d - p * p)
}

/// The ray from `start` along `dir` meets the circle: the direction is not zero,
/// the circle's centre is not behind the start, and the ray's line passes
/// within `radius` of the centre.
pub open spec fn ray_hits(start: Point, dir: Direction, center: Point, radius: u32) -> bool {
    dir_len_sq(dir) > 0 && ray_along(start, dir, center) >= 0 && ray_clearance(
        start,
        dir,
        center,
        radius,
    ) >= 0
}

/// Where the ray first meets the circle, as a signed distance from `start`
/// times the length of `dir` (the square root is rounded down). It is negative
/// when `start` lies inside the circle.
pub open spec fn hit_reach(start: Point, dir: Direction, center: Point, radius: u32) -> int {
    ray_along(start, dir, center) - floor_sqrt(ray_clearance(start, dir, center, radius))
}

/// The bound on a hit's reach that world coordinates and directions allow.
pub const REACH_BOUND: i128 = 0x1_0000_0000_0000;

proof fn lemma_cauchy_schwarz(a: int, b: int, c: int, e: int)
    ensures
        (a * c + b * e) * (a * c + b * e) <= (a * a + b * b) * (c * c + e * e),
{
    let x = a * c;
    let y = b * e;
    let u = a * e;
    let v = b * c;
    let aa = a * a;
    let bb = b * b;
    let cc = c * c;
    let ee = e * e;
    assert((aa + bb) * (cc + ee) == aa * cc + aa * ee + bb * cc + bb * ee) by (nonlinear_arith);
    assert(aa * cc == x * x) by (nonlinear_arith)
        requires
            aa == a * a,
            cc == c * c,
            x == a * c,
    ;
    assert(aa * ee == u * u) by (nonlinear_arith)
        requires
            aa == a * a,
            ee == e * e,
            u == a * e,
    ;
    assert(bb * cc == v * v) by (nonlinear_arith)
        requires
            bb == b * b,
            cc == c * c,
            v == b * c,
    ;
    assert(bb * ee == y * y) by (nonlinear_arith)
        requires
            bb == b * b,
            ee == e * e,
            y == b * e,
    ;
    assert(x * y == u * v) by (nonlinear_arith)
        requires
            x == a * c,
            y == b * e,
            u == a * e,
            v == b * c,
    ;
    assert((x + y) * (x + y) == x * x + 2 * (x * y) + y * y) by (nonlinear_arith);
    assert((u - v) * (u - v) == u * u - 2 * (u * v) + v * v) by (nonlinear_arith);
    assert((u - v) * (u - v) >= 0) by (nonlinear_arith);
}

/// Where a ray meets a circle: `None` when it misses, else the hit's reach
/// along the ray (see `hit_reach`).
pub fn ray_circle_intersection(start: Point, dir: Direction, center: Point, radius: u32) -> (r: Option<i128>)
    ensures
        r.is_some() == ray_hits(start, dir, center, radius),
        r matches Some(reach) ==> reach == hit_reach(start, dir, center, radius),
        r matches Some(reach) ==> -REACH_BOUND <= reach <= REACH_BOUND,
{
    let lx: i64 = center.x as i64 - start.x as i64;
    let ly: i64 = center.y as i64 - start.y as i64;
    let dx: i64 = dir.x as i64;
    let dy: i64 = dir.y as i64;
    proof {
        assert(-0x8000_0000_0000 <= lx * dx <= 0x8000_0000_0000) by (nonlinear_arith)
            requires
                -0x1_0000_0000 <= lx <= 0x1_0000_0000,
                -0x8000 <= dx <= 0x8000,
        ;
        assert(-0x8000_0000_0000 <= ly * dy <= 0x8000_0000_0000) by (nonlinear_arith)
            requires
                -0x1_0000_0000 <= ly <= 0x1_0000_0000,
                -0x8000 <= dy <= 0x8000,
        ;
        assert(0 <= dx * dx <= 0x4000_0000) by (nonlinear_arith)
            requires
                -0x8000 <= dx <= 0x8000,
        ;
        assert(0 <= dy * dy <= 0x4000_0000) by (nonlinear_arith)
            requires
                -0x8000 <= dy <= 0x8000,
        ;
        assert(0 <= lx * lx <= 0x1_0000_0000_0000_0000) by (nonlinear_arith)
            requires
                -0x1_0000_0000 <= lx <= 0x1_0000_0000,
        ;
        assert(0 <= ly * ly <= 0x1_0000_0000_0000_0000) by (nonlinear_arith)
            requires
                -0x1_0000_0000 <= ly <= 0x1_0000_0000,
        ;
    }
    let p: i128 = lx as i128 * dx as i128 + ly as i128 * dy as i128;
    let d: i128 = dx as i128 * dx as i128 + dy as i128 * dy as i128;
    let l: i128 = lx as i128 * lx as i128 + ly as i128 * ly as i128;
    if d == 0 || p < 0 {
        return None;
    }
    proof {
        assert(0 <= radius * radius <= 0x1_0000_0000_0000_0000) by (nonlinear_arith)
            requires
                0 <= radius <= 0xffff_ffff,
        ;
    }
    let rr: i128 = radius as i128 * radius as i128;
    proof {
        assert(0 <= p * p <= 0x1_0000_0000_0000_0000_0000_0000) by (nonlinear_arith)
            requires
                0 <= p <= 0x1_0000_0000_0000,
        ;
        assert(0 <= l * d <= 0x2_0000_0000_0000_0000 * 0x8000_0000) by (nonlinear_arith)
            requires
                0 <= l <= 0x2_0000_0000_0000_0000,
                0 <= d <= 0x8000_0000,
        ;
        assert(0 <= rr <= 0x1_0000_0000_0000_0000) by (nonlinear_arith)
            requires
                rr == radius * radius,
                0 <= radius <= 0xffff_ffff,
        ;
        assert(0 <= rr * d <= 0x1_0000_0000_0000_0000 * 0x8000_0000) by (nonlinear_arith)
            requires
                0 <= rr <= 0x1_0000_0000_0000_0000,
                0 <= d <= 0x8000_0000,
        ;
        assert(l == dist_sq(start, center)) by (nonlinear_arith)
            requires
                l == lx * lx + ly * ly,
                lx == center.x - start.x,
                ly == center.y - start.y,
        ;
    }
    let clearance: i128 = rr * d - (l * d - p * p);
    if clearance < 0 {
        return None;
    }
    let s: u64 = isqrt(clearance as u128);
    proof {
        lemma_floor_sqrt_unique(clearance as int, s as int);
        lemma_cauchy_schwarz(lx as int, ly as int, dx as int, dy as int);
        assert(s < 0x1_0000_0000_0000) by (nonlinear_arith)
            requires
                s * s <= clearance,
                clearance <= 0x1_0000_0000_0000_0000 * 0x8000_0000,
                s >= 0,
        ;
    }
    Some(p - s as i128)
}

} // verus!
