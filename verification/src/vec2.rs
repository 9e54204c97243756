//! Plane vectors in fixed-point form, their mathematical model, and the
//! shared geometric operations: Euclidean distance, the unit vector between
//! two points, and rescaling a vector to a prescribed magnitude.

use vstd::prelude::*;

use crate::math::{div_tz, div_trunc, isqrt, lemma_sqrt_floor_bounds, lemma_sqrt_floor_monotone,
    lemma_sqrt_floor_of_square, sqrt_floor};
use crate::SCALE;

verus! {

/// Extra precision factor used while rescaling a vector, so that the rounded
/// result never overshoots the requested magnitude.
pub const NORM_PREC: i64 = 65536;

/// Mathematical (unbounded) plane vector: the model of `Vec2`.
pub ghost struct V2 {
    pub x: int,
    pub y: int,
}

/// Plane vector in fixed-point form: each `i64` counts `SCALE` ticks per
/// world unit.
#[derive(Clone, Copy, PartialEq, Eq, Structural, Debug)]
pub struct Vec2 {
    pub x: i64,
    pub y: i64,
}

impl View for Vec2 {
    type V = V2;

    open spec fn view(&self) -> V2 {
        V2 { x: self.x as int, y: self.y as int }
    }
}


pub open spec fn v2_zero() -> V2 {
    V2 { x: 0, y: 0 }
}

pub open spec fn v2_add(a: V2, b: V2) -> V2 {
    V2 { x: a.x + b.x, y: a.y + b.y }
}

pub open spec fn v2_sub(a: V2, b: V2) -> V2 {
    V2 { x: a.x - b.x, y: a.y - b.y }
}

pub open spec fn v2_neg(a: V2) -> V2 {
    V2 { x: -a.x, y: -a.y }
}

/// Squared Euclidean norm.
pub open spec fn norm2(a: V2) -> int {
    a.x * a.x + a.y * a.y
}

/// Fixed-point Euclidean length: floor of the square root of the squared norm.
pub open spec fn v2_len(a: V2) -> int {
    sqrt_floor(norm2(a))
}

/// Squared distance between two points.
pub open spec fn dist2(a: V2, b: V2) -> int {
    norm2(v2_sub(a, b))
}

/// Fixed-point Euclidean distance between two points.
pub open spec fn dist(a: V2, b: V2) -> int {
    sqrt_floor(dist2(a, b))
}

/// Unit vector from `b` toward `a` in fixed-point form (components are
/// `SCALE`-scaled), given the distance `d` between them.
pub open spec fn unit_toward(a: V2, b: V2, d: int) -> V2
    recommends
        d > 0,
{
    V2 {
        x: div_tz((a.x - b.x) * SCALE, d),
        y: div_tz((a.y - b.y) * SCALE, d),
    }
}

/// `v` rescaled to magnitude `m` with direction kept (truncated toward
/// zero); the zero vector stays zero.
pub open spec fn scale_to_spec(v: V2, m: int) -> V2 {
    if v == v2_zero() {
        v2_zero()
    } else {
        let l = sqrt_floor(norm2(v) * (NORM_PREC * NORM_PREC));
        V2 {
            x: div_tz(v.x * m * NORM_PREC, l),
            y: div_tz(v.y * m * NORM_PREC, l),
        }
    }
}

/// `|a * b| <= bound_a * bound_b` whenever `|a| <= bound_a` and `|b| <= bound_b`.
pub proof fn lemma_mul_abs_bound(a: int, b: int, bound_a: int, bound_b: int)
    requires
        -bound_a <= a <= bound_a,
        -bound_b <= b <= bound_b,
    ensures
        -(bound_a * bound_b) <= a * b <= bound_a * bound_b,
{
    assert(-(bound_a * bound_b) <= a * b <= bound_a * bound_b) by (nonlinear_arith)
        requires
            -bound_a <= a <= bound_a,
            -bound_b <= b <= bound_b,
    {}
}

/// Truncated division never exceeds `c` in magnitude when `|a| <= c * b`.
pub proof fn lemma_div_tz_bound(a: int, b: int, c: int)
    requires
        b > 0,
        c >= 0,
        -(c * b) <= a <= c * b,
    ensures
        -c <= div_tz(a, b) <= c,
{
    if a >= 0 {
        vstd::arithmetic::div_mod::lemma_div_is_ordered(a, c * b, b);
        vstd::arithmetic::div_mod::lemma_div_by_multiple(c, b);
        vstd::arithmetic::div_mod::lemma_div_pos_is_pos(a, b);
    } else {
        vstd::arithmetic::div_mod::lemma_div_is_ordered(-a, c * b, b);
        vstd::arithmetic::div_mod::lemma_div_by_multiple(c, b);
        vstd::arithmetic::div_mod::lemma_div_pos_is_pos(-a, b);
    }
}

/// Negating the dividend negates a truncated quotient.
pub proof fn lemma_div_tz_neg(a: int, b: int)
    requires
        b > 0,
    ensures
        div_tz(-a, b) == -div_tz(a, b),
{
    if a == 0 {
        assert(0int / b == 0) by (nonlinear_arith)
            requires
                b > 0,
        {}
    }
}

/// Each component of a vector is bounded in magnitude by the vector's length.
pub proof fn lemma_component_le_len(a: V2)
    ensures
        -v2_len(a) <= a.x <= v2_len(a),
        -v2_len(a) <= a.y <= v2_len(a),
{
    let ax = if a.x >= 0 { a.x } else { -a.x };
    let ay = if a.y >= 0 { a.y } else { -a.y };
    assert(ax * ax == a.x * a.x && ay * ay == a.y * a.y) by (nonlinear_arith)
        requires
            ax == a.x || ax == -a.x,
            ay == a.y || ay == -a.y,
    {}
    assert(ax * ax <= norm2(a) && ay * ay <= norm2(a)) by (nonlinear_arith)
        requires
            ax * ax == a.x * a.x && ay * ay == a.y * a.y,
    {}
    lemma_sqrt_floor_of_square(ax);
    lemma_sqrt_floor_of_square(ay);
    lemma_sqrt_floor_monotone(ax * ax, norm2(a));
    lemma_sqrt_floor_monotone(ay * ay, norm2(a));
}

/// Distance is symmetric in its two points.
pub proof fn lemma_dist_symmetric(a: V2, b: V2)
    ensures
        dist(a, b) == dist(b, a),
{
    assert((a.x - b.x) * (a.x - b.x) == (b.x - a.x) * (b.x - a.x)) by (nonlinear_arith) {}
    assert((a.y - b.y) * (a.y - b.y) == (b.y - a.y) * (b.y - a.y)) by (nonlinear_arith) {}
}

/// Components of a rescaled vector never exceed the requested magnitude.
pub proof fn lemma_scale_to_component_bound(v: V2, m: int)
    requires
        m >= 0,
    ensures
        -m <= scale_to_spec(v, m).x <= m,
        -m <= scale_to_spec(v, m).y <= m,
{
    if v != v2_zero() {
        let k = NORM_PREC as int;
        let n = norm2(v) * (k * k);
        let l = sqrt_floor(n);
        let ax = if v.x >= 0 { v.x } else { -v.x };
        let ay = if v.y >= 0 { v.y } else { -v.y };
        assert(ax * ax == v.x * v.x && ay * ay == v.y * v.y) by (nonlinear_arith)
            requires
                ax == v.x || ax == -v.x,
                ay == v.y || ay == -v.y,
        {}
        assert((ax * k) * (ax * k) <= n && (ay * k) * (ay * k) <= n) by (nonlinear_arith)
            requires
                ax * ax == v.x * v.x,
                ay * ay == v.y * v.y,
                k == 65536,
                n == (v.x * v.x + v.y * v.y) * (k * k),
        {}
        lemma_sqrt_floor_of_square(ax * k);
        lemma_sqrt_floor_of_square(ay * k);
        lemma_sqrt_floor_monotone((ax * k) * (ax * k), n);
        lemma_sqrt_floor_monotone((ay * k) * (ay * k), n);
        lemma_sqrt_floor_bounds(n);
        assert(l >= 1) by {
            assert(n >= k * k) by (nonlinear_arith)
                requires
                    k == 65536,
                    n == (v.x * v.x + v.y * v.y) * (k * k),
                    !(v.x == 0 && v.y == 0),
            {}
            lemma_sqrt_floor_of_square(k);
            lemma_sqrt_floor_monotone(k * k, n);
        }
        assert(-(m * l) <= v.x * m * k <= m * l && -(m * l) <= v.y * m * k <= m * l)
            by (nonlinear_arith)
            requires
                ax * k <= l,
                ay * k <= l,
                ax == v.x || ax == -v.x,
                ay == v.y || ay == -v.y,
                ax >= 0,
                ay >= 0,
                k > 0,
                m >= 0,
        {}
        lemma_div_tz_bound(v.x * m * k, l, m);
        lemma_div_tz_bound(v.y * m * k, l, m);
    }
}

/// Magnitude-cap law core: the fixed-point length of a rescaled vector
/// never exceeds the requested magnitude `m`, and for a nonzero vector it
/// reaches `m` up to a truncation error of at most 3 ticks.
#[verifier::rlimit(60)]
pub proof fn lemma_scale_to_len_cap(v: V2, m: int)
    requires
        0 <= m <= 40_000,
    ensures
        v2_len(scale_to_spec(v, m)) <= m,
        v != v2_zero() && m >= 5 ==> v2_len(scale_to_spec(v, m)) >= m - 3,
{
    let r = scale_to_spec(v, m);
    if v == v2_zero() {
        assert(norm2(r) == 0);
    } else {
        let k = NORM_PREC as int;
        let n2 = norm2(v);
        let nk = n2 * (k * k);
        let l = sqrt_floor(nk);
        let ax = if v.x >= 0 { v.x } else { -v.x };
        let ay = if v.y >= 0 { v.y } else { -v.y };
        assert(ax * ax == v.x * v.x && ay * ay == v.y * v.y && ax >= 0 && ay >= 0)
            by (nonlinear_arith)
            requires
                v.x >= 0 ==> ax == v.x,
                v.x < 0 ==> ax == -v.x,
                v.y >= 0 ==> ay == v.y,
                v.y < 0 ==> ay == -v.y,
        {}
        assert(n2 >= 1 && nk >= k * k) by (nonlinear_arith)
            requires
                k == 65536,
                n2 == v.x * v.x + v.y * v.y,
                nk == n2 * (k * k),
                ax * ax == v.x * v.x,
                ay * ay == v.y * v.y,
                ax >= 0,
                ay >= 0,
                !(v.x == 0 && v.y == 0),
        {}
        lemma_sqrt_floor_of_square(k);
        lemma_sqrt_floor_monotone(k * k, nk);
        lemma_sqrt_floor_bounds(nk);
        let px = ax * m * k;
        let py = ay * m * k;
        assert(px >= 0 && py >= 0 && (v.x * m * k == px || v.x * m * k == -px)
            && (v.y * m * k == py || v.y * m * k == -py)) by (nonlinear_arith)
            requires
                ax == v.x || ax == -v.x,
                ay == v.y || ay == -v.y,
                ax >= 0,
                ay >= 0,
                m >= 0,
                k == 65536,
                px == ax * m * k,
                py == ay * m * k,
        {}
        let qx = px / l;
        let qy = py / l;
        assert(0int / l == 0) by (nonlinear_arith)
            requires
                l > 0,
        {}
        assert(r.x == qx || r.x == -qx);
        assert(r.y == qy || r.y == -qy);
        vstd::arithmetic::div_mod::lemma_fundamental_div_mod(px, l);
        vstd::arithmetic::div_mod::lemma_mod_bound(px, l);
        vstd::arithmetic::div_mod::lemma_div_pos_is_pos(px, l);
        vstd::arithmetic::div_mod::lemma_fundamental_div_mod(py, l);
        vstd::arithmetic::div_mod::lemma_mod_bound(py, l);
        vstd::arithmetic::div_mod::lemma_div_pos_is_pos(py, l);
        assert(qx * l <= px && qy * l <= py);
        let big = qx * qx + qy * qy;
        assert(norm2(r) == big) by (nonlinear_arith)
            requires
                r.x == qx || r.x == -qx,
                r.y == qy || r.y == -qy,
                norm2(r) == r.x * r.x + r.y * r.y,
                big == qx * qx + qy * qy,
        {}
        assert(big * (l * l) <= px * px + py * py) by (nonlinear_arith)
            requires
                qx >= 0,
                qy >= 0,
                l >= 1,
                qx * l <= px,
                qy * l <= py,
                big == qx * qx + qy * qy,
        {}
        assert(px * px == (ax * ax) * ((m * m) * (k * k))) by (nonlinear_arith)
            requires
                px == ax * m * k,
        {}
        assert(py * py == (ay * ay) * ((m * m) * (k * k))) by (nonlinear_arith)
            requires
                py == ay * m * k,
        {}
        assert((ax * ax) * ((m * m) * (k * k)) + (ay * ay) * ((m * m) * (k * k))
            == (ax * ax + ay * ay) * ((m * m) * (k * k))) by (nonlinear_arith) {}
        assert(nk * (m * m) == n2 * ((m * m) * (k * k))) by (nonlinear_arith)
            requires
                nk == n2 * (k * k),
        {}
        assert(px * px + py * py == nk * (m * m));
        assert(nk <= l * l + 2 * l) by (nonlinear_arith)
            requires
                nk < (l + 1) * (l + 1),
        {}
        assert(big * (l * l) <= (l * l + 2 * l) * (m * m)) by (nonlinear_arith)
            requires
                big * (l * l) <= nk * (m * m),
                nk <= l * l + 2 * l,
                m * m >= 0,
                l >= 1,
        {}
        if big > m * m + 2 * m {
            assert(false) by (nonlinear_arith)
                requires
                    big >= m * m + 2 * m + 1,
                    big * (l * l) <= (l * l + 2 * l) * (m * m),
                    l >= 65536,
                    0 <= m <= 40_000,
            {}
        }
        lemma_sqrt_floor_bounds(big);
        let s = sqrt_floor(big);
        if s > m {
            assert((m + 1) * (m + 1) <= s * s && (m + 1) * (m + 1) == m * m + 2 * m + 1)
                by (nonlinear_arith)
                requires
                    0 <= m,
                    m + 1 <= s,
            {}
        }
        if m >= 5 {
            assert(ax * k <= l && ay * k <= l) by (nonlinear_arith)
                requires
                    ax >= 0,
                    ay >= 0,
                    k == 65536,
                    ax * ax == v.x * v.x,
                    ay * ay == v.y * v.y,
                    nk == (v.x * v.x + v.y * v.y) * (k * k),
                    nk < (l + 1) * (l + 1),
                    l >= 1,
            {}
            assert(px <= m * l && py <= m * l) by (nonlinear_arith)
                requires
                    px == ax * m * k,
                    py == ay * m * k,
                    ax * k <= l,
                    ay * k <= l,
                    m >= 0,
                    ax >= 0,
                    ay >= 0,
                    k >= 1,
            {}
            assert(qx * l >= px - l + 1 && qy * l >= py - l + 1);
            assert((qx * l) * (qx * l) >= (px - l) * (px - l) - l * l) by (nonlinear_arith)
                requires
                    qx >= 0,
                    l >= 1,
                    px >= 0,
                    qx * l >= px - l + 1,
            {}
            assert((qy * l) * (qy * l) >= (py - l) * (py - l) - l * l) by (nonlinear_arith)
                requires
                    qy >= 0,
                    l >= 1,
                    py >= 0,
                    qy * l >= py - l + 1,
            {}
            assert(big * (l * l) == (qx * l) * (qx * l) + (qy * l) * (qy * l))
                by (nonlinear_arith)
                requires
                    big == qx * qx + qy * qy,
            {}
            assert((px - l) * (px - l) + (py - l) * (py - l)
                == px * px + py * py - 2 * l * (px + py) + 2 * (l * l))
                by (nonlinear_arith) {}
            assert(2 * l * (px + py) <= 4 * m * (l * l)) by (nonlinear_arith)
                requires
                    px <= m * l,
                    py <= m * l,
                    px >= 0,
                    py >= 0,
                    l >= 1,
            {}
            assert(nk * (m * m) >= (l * l) * (m * m)) by (nonlinear_arith)
                requires
                    nk >= l * l,
                    m >= 0,
            {}
            assert(big >= m * m - 4 * m) by (nonlinear_arith)
                requires
                    big * (l * l) >= (l * l) * (m * m) - 4 * m * (l * l),
                    l >= 1,
            {}
            assert((m - 3) * (m - 3) <= m * m - 4 * m) by (nonlinear_arith)
                requires
                    m >= 5,
            {}
            lemma_sqrt_floor_of_square(m - 3);
            lemma_sqrt_floor_monotone((m - 3) * (m - 3), big);
        }
    }
}

/// `v` rescaled to magnitude `m`, truncated toward zero; the zero vector
/// stays zero.
pub fn scale_to(v: &Vec2, m: i64) -> (r: Vec2)
    requires
        -300_000_000 <= v.x <= 300_000_000,
        -300_000_000 <= v.y <= 300_000_000,
        0 <= m <= 40_000,
    ensures
        r@ == scale_to_spec(v@, m as int),
        -m <= r.x <= m,
        -m <= r.y <= m,
{
    proof {
        lemma_scale_to_component_bound(v@, m as int);
    }
    if v.x == 0 && v.y == 0 {
        return Vec2 { x: 0, y: 0 };
    }
    let xk: i64 = v.x * NORM_PREC;
    let yk: i64 = v.y * NORM_PREC;
    let axk: u64 = if xk >= 0 { xk as u64 } else { (-xk) as u64 };
    let ayk: u64 = if yk >= 0 { yk as u64 } else { (-yk) as u64 };
    proof {
        assert((axk as int) * (axk as int) == (xk as int) * (xk as int)) by (nonlinear_arith)
            requires
                axk as int == xk as int || axk as int == -(xk as int),
        {}
        assert((ayk as int) * (ayk as int) == (yk as int) * (yk as int)) by (nonlinear_arith)
            requires
                ayk as int == yk as int || ayk as int == -(yk as int),
        {}
        lemma_mul_abs_bound(axk as int, axk as int,
            300_000_000int * 65536, 300_000_000int * 65536);
        lemma_mul_abs_bound(ayk as int, ayk as int,
            300_000_000int * 65536, 300_000_000int * 65536);
        assert((xk as int) * (xk as int) + (yk as int) * (yk as int)
            == norm2(v@) * ((NORM_PREC as int) * (NORM_PREC as int))) by (nonlinear_arith)
            requires
                xk as int == (v.x as int) * (NORM_PREC as int),
                yk as int == (v.y as int) * (NORM_PREC as int),
        {}
    }
    let n: u128 = (axk as u128) * (axk as u128) + (ayk as u128) * (ayk as u128);
    let l: u64 = isqrt(n);
    proof {
        let k = NORM_PREC as int;
        assert(norm2(v@) * (k * k) >= k * k) by (nonlinear_arith)
            requires
                k == 65536,
                !(v.x as int == 0 && v.y as int == 0),
                norm2(v@) == (v.x as int) * (v.x as int) + (v.y as int) * (v.y as int),
        {}
        lemma_sqrt_floor_of_square(k);
        lemma_sqrt_floor_monotone(k * k, n as int);
        lemma_sqrt_floor_bounds(n as int);
        assert(l as int <= 140_737_488_355_328) by {
            if l as int > 140_737_488_355_328 {
                assert((l as int) * (l as int)
                    > 140_737_488_355_328 * 140_737_488_355_328) by (nonlinear_arith)
                    requires
                        l as int > 140_737_488_355_328,
                {}
            }
        }
        lemma_mul_abs_bound(v.x as int, m as int, 300_000_000, 40_000);
        lemma_mul_abs_bound(v.y as int, m as int, 300_000_000, 40_000);
        lemma_mul_abs_bound((v.x as int) * (m as int), NORM_PREC as int,
            300_000_000int * 40_000, 65536int);
        lemma_mul_abs_bound((v.y as int) * (m as int), NORM_PREC as int,
            300_000_000int * 40_000, 65536int);
    }
    let rx: i64 = div_trunc(v.x * m * NORM_PREC, l as i64);
    let ry: i64 = div_trunc(v.y * m * NORM_PREC, l as i64);
    Vec2 { x: rx, y: ry }
}

/// Euclidean distance, computed through the integer square root.
pub fn distance(a: &Vec2, b: &Vec2) -> (d: i64)
    requires
        -1_000_000_000 <= a.x <= 1_000_000_000,
        -1_000_000_000 <= a.y <= 1_000_000_000,
        -1_000_000_000 <= b.x <= 1_000_000_000,
        -1_000_000_000 <= b.y <= 1_000_000_000,
    ensures
        d == dist(a@, b@),
        0 <= d <= 2_828_427_125,
{
    let dx: i64 = a.x - b.x;
    let dy: i64 = a.y - b.y;
    let adx: u64 = if dx >= 0 { dx as u64 } else { (-dx) as u64 };
    let ady: u64 = if dy >= 0 { dy as u64 } else { (-dy) as u64 };
    proof {
        assert((adx as int) * (adx as int) == (dx as int) * (dx as int)) by (nonlinear_arith)
            requires
                adx as int == dx as int || adx as int == -(dx as int),
        {}
        assert((ady as int) * (ady as int) == (dy as int) * (dy as int)) by (nonlinear_arith)
            requires
                ady as int == dy as int || ady as int == -(dy as int),
        {}
        lemma_mul_abs_bound(adx as int, adx as int, 2_000_000_000, 2_000_000_000);
        lemma_mul_abs_bound(ady as int, ady as int, 2_000_000_000, 2_000_000_000);
    }
    let n: u128 = (adx as u128) * (adx as u128) + (ady as u128) * (ady as u128);
    let r: u64 = isqrt(n);
    proof {
        lemma_sqrt_floor_bounds(n as int);
        assert(2_828_427_125int * 2_828_427_125int >= 8_000_000_000_000_000_000int) by (nonlinear_arith) {}
        lemma_sqrt_floor_monotone(n as int, 8_000_000_000_000_000_000int);
        lemma_sqrt_floor_of_square(2_828_427_125int);
        lemma_sqrt_floor_monotone(8_000_000_000_000_000_000int,
            2_828_427_125int * 2_828_427_125int);
    }
    r as i64
}

} // verus!
