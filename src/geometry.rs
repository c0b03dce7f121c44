use vstd::prelude::*;

verus! {

/// A planar vector in unreal units. The whole arena fits well inside the range of `i16`.
#[derive(Clone, Copy, Debug, PartialEq, Eq, Structural)]
pub struct Vec2 {
    pub x: i16,
    pub y: i16,
}

/// A spatial vector in unreal units.
#[derive(Clone, Copy, Debug, PartialEq, Eq, Structural)]
pub struct Vec3 {
    pub x: i16,
    pub y: i16,
    pub z: i16,
}

pub open spec fn dot2_spec(a: (int, int), b: (int, int)) -> int {
    a.0 * b.0 + a.1 * b.1
}

pub open spec fn norm2_sq_spec(a: (int, int)) -> int {
    a.0 * a.0 + a.1 * a.1
}

impl Vec2 {
    pub fn new(x: i16, y: i16) -> (r: Vec2)
        ensures
            r.x == x,
            r.y == y,
    {
        Vec2 { x, y }
    }
}

impl Vec3 {
    pub fn new(x: i16, y: i16, z: i16) -> (r: Vec3)
        ensures
            r.x == x,
            r.y == y,
            r.z == z,
    {
        Vec3 { x, y, z }
    }

    pub fn zero() -> (r: Vec3)
        ensures
            r.x == 0 && r.y == 0 && r.z == 0,
    {
        Vec3 { x: 0, y: 0, z: 0 }
    }

    /// Drops the vertical component.
    pub open spec fn to_2d_spec(self) -> Vec2 {
        Vec2 { x: self.x, y: self.y }
    }

    pub fn to_2d(&self) -> (r: Vec2)
        ensures
            r == self.to_2d_spec(),
    {
        Vec2 { x: self.x, y: self.y }
    }
}

/// The planar difference `a - b`, as exact integers.
pub open spec fn sub2_spec(a: Vec2, b: Vec2) -> (int, int) {
    (a.x - b.x, a.y - b.y)
}

pub fn sub2(a: Vec2, b: Vec2) -> (r: (i64, i64))
    ensures
        r.0 as int == sub2_spec(a, b).0,
        r.1 as int == sub2_spec(a, b).1,
        -65536 <= r.0 <= 65536,
        -65536 <= r.1 <= 65536,
{
    (a.x as i64 - b.x as i64, a.y as i64 - b.y as i64)
}

/// Dot product of two planar vectors whose components are at most `2^17` in magnitude.
pub fn dot2(a: (i64, i64), b: (i64, i64)) -> (r: i64)
    requires
        -131072 <= a.0 <= 131072,
        -131072 <= a.1 <= 131072,
        -131072 <= b.0 <= 131072,
        -131072 <= b.1 <= 131072,
    ensures
        r as int == dot2_spec((a.0 as int, a.1 as int), (b.0 as int, b.1 as int)),
{
    assert(-17179869184 <= a.0 * b.0 <= 17179869184) by (nonlinear_arith)
        requires
            -131072 <= a.0 <= 131072,
            -131072 <= b.0 <= 131072,
    ;
    assert(-17179869184 <= a.1 * b.1 <= 17179869184) by (nonlinear_arith)
        requires
            -131072 <= a.1 <= 131072,
            -131072 <= b.1 <= 131072,
    ;
    a.0 * b.0 + a.1 * b.1
}

/// The largest `r` with `r * r <= n`.
pub open spec fn is_isqrt(n: int, r: int) -> bool {
    0 <= r && r * r <= n && n < (r + 1) * (r + 1)
}

/// Every natural number below `2^46` has an integer square root.
pub proof fn isqrt_ghost(n: int) -> (r: int)
    requires
        0 <= n <= 0x4000_0000_0000,
    ensures
        is_isqrt(n, r),
        r <= 0x80_0000,
    decreases n,
{
    if n == 0 {
        0
    } else {
        let q = isqrt_ghost(n - 1);
        if (q + 1) * (q + 1) <= n {
            assert((q + 1) * (q + 1) == n) by (nonlinear_arith)
                requires
                    (q + 1) * (q + 1) <= n,
                    n - 1 < (q + 1) * (q + 1),
            ;
            assert(n < (q + 2) * (q + 2)) by (nonlinear_arith)
                requires
                    (q + 1) * (q + 1) == n,
                    q >= 0,
            ;
            if q + 1 > 0x80_0000 {
                assert((q + 1) * (q + 1) > 0x4000_0000_0000) by (nonlinear_arith)
                    requires
                        q + 1 > 0x80_0000,
                ;
            }
            q + 1
        } else {
            q
        }
    }
}

/// Integer square root, rounding down.
pub fn isqrt(n: u64) -> (r: u64)
    requires
        n <= 0x4000_0000_0000,
    ensures
        is_isqrt(n as int, r as int),
        r <= 0x80_0000,
{
    let mut lo: u64 = 0;
    let mut hi: u64 = 0x80_0001;
    assert(hi * hi > n) by (nonlinear_arith)
        requires
            hi == 0x80_0001,
            n <= 0x4000_0000_0000,
    ;
    while hi - lo > 1
        invariant
            lo < hi <= 0x80_0001,
            lo * lo <= n,
            n < hi * hi,
        decreases hi - lo,
    {
        let mid = lo + (hi - lo) / 2;
        assert(mid * mid <= 0x80_0001 * 0x80_0001) by (nonlinear_arith)
            requires
                mid <= 0x80_0001,
        ;
        if mid * mid <= n {
            lo = mid;
        } else {
            hi = mid;
        }
    }
    assert(hi == lo + 1);
    lo
}

} // verus!

verus! {

/// `a` and `b` point within the angle whose cosine is `cos_milli / 1000` of each other:
/// the angle between them is at most `acos(cos_milli / 1000)`. A zero vector is within no angle.
pub open spec fn within_angle_spec(a: (int, int), b: (int, int), cos_milli: int) -> bool {
    let d = dot2_spec(a, b);
    d > 0 && d * d * 1_000_000 >= cos_milli * cos_milli * norm2_sq_spec(a) * norm2_sq_spec(b)
}

pub fn within_angle(a: (i64, i64), b: (i64, i64), cos_milli: u16) -> (r: bool)
    requires
        -131072 <= a.0 <= 131072,
        -131072 <= a.1 <= 131072,
        -131072 <= b.0 <= 131072,
        -131072 <= b.1 <= 131072,
        cos_milli <= 1000,
    ensures
        r == within_angle_spec((a.0 as int, a.1 as int), (b.0 as int, b.1 as int), cos_milli as int),
{
    let d = dot2(a, b);
    if d <= 0 {
        return false;
    }
    let na = dot2(a, a);
    let nb = dot2(b, b);
    assert(0 <= na <= 34359738368 && 0 <= nb <= 34359738368) by (nonlinear_arith)
        requires
            na == a.0 * a.0 + a.1 * a.1,
            nb == b.0 * b.0 + b.1 * b.1,
            -131072 <= a.0 <= 131072,
            -131072 <= a.1 <= 131072,
            -131072 <= b.0 <= 131072,
            -131072 <= b.1 <= 131072,
    ;
    assert(d <= 34359738368) by (nonlinear_arith)
        requires
            d == a.0 * b.0 + a.1 * b.1,
            -131072 <= a.0 <= 131072,
            -131072 <= a.1 <= 131072,
            -131072 <= b.0 <= 131072,
            -131072 <= b.1 <= 131072,
    ;
    let du = d as u128;
    let c = cos_milli as u128;
    assert(du * du * 1_000_000 <= 34359738368 * 34359738368 * 1_000_000) by (nonlinear_arith)
        requires
            0 < du <= 34359738368,
    ;
    assert(c * c <= 1_000_000) by (nonlinear_arith)
        requires
            c <= 1000,
    ;
    let cc = c * c;
    assert((na as u128) * (nb as u128) <= 34359738368 * 34359738368) by (nonlinear_arith)
        requires
            0 <= na <= 34359738368,
            0 <= nb <= 34359738368,
    ;
    let nn = (na as u128) * (nb as u128);
    assert(nn <= 34359738368 * 34359738368) by (nonlinear_arith)
        requires
            nn == na * nb,
            0 <= na <= 34359738368,
            0 <= nb <= 34359738368,
    ;
    assert(cc * nn <= 1_000_000 * (34359738368 * 34359738368)) by (nonlinear_arith)
        requires
            cc == c * c,
            c <= 1000,
            nn <= 34359738368 * 34359738368,
    ;
    assert(cc * nn == c * c * na * nb) by (nonlinear_arith)
        requires
            cc == c * c,
            nn == na * nb,
    ;
    du * du * 1_000_000 >= cc * nn
}

/// The point `len` units from `from` towards `to`, or `to` itself if that is closer.
pub open spec fn toward_spec(from: int, delta: int, len: int, dist: int) -> int {
    if delta >= 0 {
        from + delta * len / dist
    } else {
        from - (-delta) * len / dist
    }
}

pub proof fn lemma_sq_le_isqrt(x: int, n: int, r: int)
    requires
        is_isqrt(n, r),
        x * x <= n,
        x >= 0,
    ensures
        x <= r,
{
    if x > r {
        assert((r + 1) * (r + 1) <= x * x) by (nonlinear_arith)
            requires
                x >= r + 1,
                r >= 0,
        ;
    }
}

pub open spec fn move_toward_spec(from: Vec2, to: Vec2, len: int) -> Vec2 {
    let (dx, dy) = sub2_spec(to, from);
    let dist = choose|q: int| #[trigger] is_isqrt(dx * dx + dy * dy, q);
    if len >= dist {
        to
    } else {
        Vec2 {
            x: toward_spec(from.x as int, dx, len, dist) as i16,
            y: toward_spec(from.y as int, dy, len, dist) as i16,
        }
    }
}

/// Moves `len` units from `from` along the straight line to `to`, stopping at `to`. Each
/// coordinate is rounded towards `from`.
pub fn move_toward(from: Vec2, to: Vec2, len: u64) -> (r: Vec2)
    ensures
        ({
            let (dx, dy) = sub2_spec(to, from);
            let dist = choose|q: int| #[trigger] is_isqrt(dx * dx + dy * dy, q);
            &&& len >= dist ==> r == to
            &&& len < dist ==> r.x == toward_spec(from.x as int, dx, len as int, dist) && r.y
                == toward_spec(from.y as int, dy, len as int, dist)
        }),
        r == move_toward_spec(from, to, len as int),
{
    let (dx, dy) = sub2(to, from);
    let n = dot2((dx, dy), (dx, dy));
    assert(0 <= n <= 8589934592) by (nonlinear_arith)
        requires
            n == dx * dx + dy * dy,
            -65536 <= dx <= 65536,
            -65536 <= dy <= 65536,
    ;
    let dist = isqrt(n as u64);
    proof {
        let q = choose|q: int| #[trigger] is_isqrt(n as int, q);
        assert(is_isqrt(n as int, dist as int));
        if q < dist {
            assert((q + 1) * (q + 1) <= dist * dist) by (nonlinear_arith)
                requires
                    q + 1 <= dist,
                    q >= 0,
            ;
        } else if q > dist {
            assert((dist + 1) * (dist + 1) <= q * q) by (nonlinear_arith)
                requires
                    dist + 1 <= q,
                    dist >= 0,
            ;
        }
    }
    if len >= dist {
        return to;
    }
    proof {
        assert(dx * dx <= n && dy * dy <= n && (-dx) * (-dx) == dx * dx && (-dy) * (-dy) == dy
            * dy) by (nonlinear_arith)
            requires
                n == dx * dx + dy * dy,
        ;
        if dx >= 0 {
            lemma_sq_le_isqrt(dx as int, n as int, dist as int);
        } else {
            lemma_sq_le_isqrt(-dx as int, n as int, dist as int);
        }
        if dy >= 0 {
            lemma_sq_le_isqrt(dy as int, n as int, dist as int);
        } else {
            lemma_sq_le_isqrt(-dy as int, n as int, dist as int);
        }
    }
    let x = step_toward(from.x, to.x, dx, len, dist);
    let y = step_toward(from.y, to.y, dy, len, dist);
    Vec2 { x, y }
}

/// One coordinate of `move_toward`: `from + delta * len / dist`, rounded towards `from`.
fn step_toward(from: i16, to: i16, delta: i64, len: u64, dist: u64) -> (r: i16)
    requires
        delta == to - from,
        len < dist,
        dist <= 0x80_0000,
        -(dist as int) <= delta <= dist,
    ensures
        r as int == toward_spec(from as int, delta as int, len as int, dist as int),
{
    let m: u64 = if delta >= 0 {
        delta as u64
    } else {
        (-delta) as u64
    };
    assert(m * len <= m * dist) by (nonlinear_arith)
        requires
            len < dist,
    ;
    assert(m * dist <= dist * dist) by (nonlinear_arith)
        requires
            m <= dist,
    ;
    assert(m * len <= 0x80_0000 * 0x80_0000) by (nonlinear_arith)
        requires
            m <= dist,
            len < dist,
            dist <= 0x80_0000,
    ;
    let k = m * len / dist;
    proof {
        let (mi, li, di) = (m as int, len as int, dist as int);
        assert(mi * li <= mi * di) by (nonlinear_arith)
            requires
                li < di,
                mi >= 0,
        ;
        vstd::arithmetic::div_mod::lemma_div_is_ordered(mi * li, mi * di, di);
        vstd::arithmetic::div_mod::lemma_div_multiples_vanish(mi, di);
        assert(mi * di == di * mi) by (nonlinear_arith);
    }
    if delta >= 0 {
        (from as i64 + k as i64) as i16
    } else {
        (from as i64 - k as i64) as i16
    }
}

} // verus!

verus! {

pub open spec fn scale_to_spec(dx: int, dy: int, len: int) -> Vec2 {
    let dist = choose|q: int| #[trigger] is_isqrt(dx * dx + dy * dy, q);
    if dist == 0 {
        Vec2 { x: 0, y: 0 }
    } else {
        Vec2 { x: scaled_spec(dx, len, dist) as i16, y: scaled_spec(dy, len, dist) as i16 }
    }
}

/// `d * len / dist`, rounded towards zero.
pub open spec fn scaled_spec(d: int, len: int, dist: int) -> int {
    if d >= 0 {
        d * len / dist
    } else {
        -((-d) * len / dist)
    }
}

/// The vector of length `len` (rounded towards zero per component) pointing along `(dx, dy)`;
/// zero when `(dx, dy)` is zero.
pub fn scale_to(dx: i64, dy: i64, len: u32) -> (r: Vec2)
    requires
        -65536 <= dx <= 65536,
        -65536 <= dy <= 65536,
        len <= 30000,
    ensures
        ({
            let dist = choose|q: int| #[trigger] is_isqrt(dx * dx + dy * dy, q);
            &&& dist == 0 ==> r.x == 0 && r.y == 0
            &&& dist > 0 ==> r.x == scaled_spec(dx as int, len as int, dist) && r.y == scaled_spec(
                dy as int,
                len as int,
                dist,
            )
        }),
        r == scale_to_spec(dx as int, dy as int, len as int),
        dx == 0 && dy == 0 ==> r.x == 0 && r.y == 0,
        dx >= 0 ==> r.x >= 0,
        dx <= 0 ==> r.x <= 0,
        dy >= 0 ==> r.y >= 0,
        dy <= 0 ==> r.y <= 0,
{
    let n = dot2((dx, dy), (dx, dy));
    assert(0 <= n <= 8589934592 && dx * dx <= n && dy * dy <= n && (-dx) * (-dx) == dx * dx && (-dy)
        * (-dy) == dy * dy) by (nonlinear_arith)
        requires
            n == dx * dx + dy * dy,
            -65536 <= dx <= 65536,
            -65536 <= dy <= 65536,
    ;
    let dist = isqrt(n as u64);
    proof {
        let q = choose|q: int| #[trigger] is_isqrt(n as int, q);
        assert(is_isqrt(n as int, dist as int));
        if q < dist {
            assert((q + 1) * (q + 1) <= dist * dist) by (nonlinear_arith)
                requires
                    q + 1 <= dist,
                    q >= 0,
            ;
        } else if q > dist {
            assert((dist + 1) * (dist + 1) <= q * q) by (nonlinear_arith)
                requires
                    dist + 1 <= q,
                    dist >= 0,
            ;
        }
    }
    if dist == 0 {
        assert(n < 1) by (nonlinear_arith)
            requires
                n < (dist + 1) * (dist + 1),
                dist == 0,
        ;
        assert(dx == 0 && dy == 0) by (nonlinear_arith)
            requires
                n == dx * dx + dy * dy,
                n < 1,
        ;
        return Vec2 { x: 0, y: 0 };
    }
    proof {
        if dx >= 0 {
            lemma_sq_le_isqrt(dx as int, n as int, dist as int);
        } else {
            lemma_sq_le_isqrt(-dx as int, n as int, dist as int);
        }
        if dy >= 0 {
            lemma_sq_le_isqrt(dy as int, n as int, dist as int);
        } else {
            lemma_sq_le_isqrt(-dy as int, n as int, dist as int);
        }
    }
    Vec2 { x: scale_component(dx, len, dist), y: scale_component(dy, len, dist) }
}

fn scale_component(d: i64, len: u32, dist: u64) -> (r: i16)
    requires
        dist > 0,
        dist <= 0x80_0000,
        -(dist as int) <= d <= dist,
        len <= 30000,
    ensures
        d >= 0 ==> r >= 0,
        d <= 0 ==> r <= 0,
        r as int == scaled_spec(d as int, len as int, dist as int),
{
    let m: u64 = if d >= 0 {
        d as u64
    } else {
        (-d) as u64
    };
    assert(m * len as u64 <= 0x80_0000 * 30000) by (nonlinear_arith)
        requires
            m <= dist,
            dist <= 0x80_0000,
            len <= 30000,
    ;
    let k = m * len as u64 / dist;
    proof {
        let (mi, li, di) = (m as int, len as int, dist as int);
        assert(mi * li <= di * li) by (nonlinear_arith)
            requires
                mi <= di,
                li >= 0,
        ;
        vstd::arithmetic::div_mod::lemma_div_is_ordered(mi * li, di * li, di);
        vstd::arithmetic::div_mod::lemma_div_multiples_vanish(li, di);
        assert(di * li == li * di) by (nonlinear_arith);
        if mi == 0 {
            assert(mi * li == 0) by (nonlinear_arith)
                requires
                    mi == 0,
            ;
        }
    }
    if d >= 0 {
        k as i16
    } else {
        -(k as i16)
    }
}

} // verus!
