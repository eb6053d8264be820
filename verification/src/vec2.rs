use vstd::prelude::*;
use vstd::arithmetic::div_mod::lemma_div_by_multiple;
use vstd::arithmetic::div_mod::lemma_div_is_ordered;
use vstd::arithmetic::div_mod::lemma_div_pos_is_pos;
use crate::configs::FX;
use crate::configs::FX_SQ;
use crate::configs::NORM_IN_BOUND;
use crate::configs::POS_BOUND;
use crate::configs::UNIT_NORM_SQ_MAX;
use crate::configs::UNIT_NORM_SQ_MIN;
use crate::fx::abs_sp;
use crate::fx::div_to_zero;
use crate::fx::isqrt_sp;
use crate::fx::isqrt_u128;
use crate::fx::lemma_div_bounds;
use crate::fx::lemma_isqrt_exists;

verus! {

/// A fixed-point 2D vector: each component counts `1 / FX` world units.
#[derive(Clone, Copy, PartialEq, Eq, Structural, Debug)]
pub struct Vec2Fx {
    pub x: i64,
    pub y: i64,
}

impl Vec2Fx {
    pub open spec fn zero_sp() -> Vec2Fx {
        Vec2Fx { x: 0, y: 0 }
    }

    pub fn zero() -> (r: Vec2Fx)
        ensures
            r == Vec2Fx::zero_sp(),
    {
        Vec2Fx { x: 0, y: 0 }
    }

    pub open spec fn norm_sq_sp(self) -> int {
        self.x * self.x + self.y * self.y
    }
}

pub open spec fn dist_sq_sp(a: Vec2Fx, b: Vec2Fx) -> int {
    (a.x - b.x) * (a.x - b.x) + (a.y - b.y) * (a.y - b.y)
}

/// Squared distance between two in-range positions, in fixed-point-squared
/// units.
pub fn dist_sq(a: Vec2Fx, b: Vec2Fx) -> (r: i64)
    requires
        abs_sp(a.x as int) <= POS_BOUND,
        abs_sp(a.y as int) <= POS_BOUND,
        abs_sp(b.x as int) <= POS_BOUND,
        abs_sp(b.y as int) <= POS_BOUND,
    ensures
        r == dist_sq_sp(a, b),
        0 <= r <= 8 * POS_BOUND * POS_BOUND,
{
    let dx: i64 = a.x - b.x;
    let dy: i64 = a.y - b.y;
    proof {
        assert(dx * dx <= 4 * POS_BOUND * POS_BOUND && dx * dx >= 0) by (nonlinear_arith)
            requires
                abs_sp(dx as int) <= 2 * POS_BOUND,
                POS_BOUND == 100_000_000,
        ;
        assert(dy * dy <= 4 * POS_BOUND * POS_BOUND && dy * dy >= 0) by (nonlinear_arith)
            requires
                abs_sp(dy as int) <= 2 * POS_BOUND,
                POS_BOUND == 100_000_000,
        ;
    }
    dx * dx + dy * dy
}

/// The squared norm of `(x, y)` after both components are scaled up by `FX`.
pub open spec fn scaled_norm_sq(x: int, y: int) -> int {
    (x * FX) * (x * FX) + (y * FX) * (y * FX)
}

pub open spec fn norm_len_sp(x: int, y: int) -> nat {
    isqrt_sp(scaled_norm_sq(x, y) as nat)
}

/// The fixed-point unit vector in the direction of `v`: each component is
/// `v * FX / |v|`, with the machine's truncation toward zero.
pub open spec fn normalize_sp(v: Vec2Fx) -> (int, int) {
    let l = norm_len_sp(v.x as int, v.y as int);
    (div_to_zero(v.x * FX * FX, l as int), div_to_zero(v.y * FX * FX, l as int))
}

proof fn lemma_square_eq_abs(c: int)
    ensures
        (c * FX) * (c * FX) == (abs_sp(c) * FX) * (abs_sp(c) * FX),
{
    assert((c * FX) * (c * FX) == (abs_sp(c) * FX) * (abs_sp(c) * FX)) by (nonlinear_arith);
}

/// Facts shared by the normaliser and its callers: the scaled norm is
/// bracketed by the squared integer root, and that root is at least `FX`
/// for any nonzero input.
proof fn lemma_norm_len_bounds(x: int, y: int)
    requires
        abs_sp(x) <= NORM_IN_BOUND,
        abs_sp(y) <= NORM_IN_BOUND,
        !(x == 0 && y == 0),
    ensures
        ({
            let n = scaled_norm_sq(x, y);
            let l = norm_len_sp(x, y) as int;
            &&& 0 <= n <= 0x1_0000_0000_0000_0000_0000_0000_0000nat
            &&& l * l <= n < (l + 1) * (l + 1)
            &&& FX <= l
            &&& abs_sp(x) * FX <= l
            &&& abs_sp(y) * FX <= l
        }),
{
    let ax = abs_sp(x);
    let ay = abs_sp(y);
    let n = scaled_norm_sq(x, y);
    lemma_square_eq_abs(x);
    lemma_square_eq_abs(y);
    assert(n == (ax * FX) * (ax * FX) + (ay * FX) * (ay * FX));
    assert(n >= FX * FX && n <= 0x1_0000_0000_0000_0000_0000_0000_0000
        && (ax * FX) * (ax * FX) <= n && (ay * FX) * (ay * FX) <= n) by (nonlinear_arith)
        requires
            n == (ax * FX) * (ax * FX) + (ay * FX) * (ay * FX),
            0 <= ax <= NORM_IN_BOUND,
            0 <= ay <= NORM_IN_BOUND,
            ax >= 1 || ay >= 1,
            FX == 10_000,
            NORM_IN_BOUND == 1_000_010_000,
    ;
    lemma_isqrt_exists(n as nat);
    let l = norm_len_sp(x, y) as int;
    assert(l * l <= n < (l + 1) * (l + 1));
    assert(FX <= l && ax * FX <= l && ay * FX <= l) by (nonlinear_arith)
        requires
            l * l <= n < (l + 1) * (l + 1),
            n >= FX * FX,
            (ax * FX) * (ax * FX) <= n,
            (ay * FX) * (ay * FX) <= n,
            0 <= ax,
            0 <= ay,
            l >= 0,
            FX == 10_000,
    ;
}

/// Each component of the normalised vector lies in `[-FX, FX]`.
pub proof fn lemma_normalize_sp_component_bounds(v: Vec2Fx)
    requires
        abs_sp(v.x as int) <= NORM_IN_BOUND,
        abs_sp(v.y as int) <= NORM_IN_BOUND,
        !(v.x == 0 && v.y == 0),
    ensures
        abs_sp(normalize_sp(v).0) <= FX,
        abs_sp(normalize_sp(v).1) <= FX,
        abs_sp(normalize_sp(v).0) * norm_len_sp(v.x as int, v.y as int)
            <= abs_sp(v.x as int) * FX_SQ,
        abs_sp(normalize_sp(v).1) * norm_len_sp(v.x as int, v.y as int)
            <= abs_sp(v.y as int) * FX_SQ,
{
    lemma_norm_len_bounds(v.x as int, v.y as int);
    let l = norm_len_sp(v.x as int, v.y as int) as int;
    lemma_normalize_component(v.x as int, l);
    lemma_normalize_component(v.y as int, l);
}

/// One component: `|div_to_zero(c * FX * FX, l)| <= FX` when `|c| * FX <= l`.
proof fn lemma_normalize_component(c: int, l: int)
    requires
        l >= FX,
        abs_sp(c) * FX <= l,
    ensures
        abs_sp(div_to_zero(c * FX * FX, l)) <= FX,
        abs_sp(div_to_zero(c * FX * FX, l)) * l <= abs_sp(c) * FX_SQ,
{
    let a = abs_sp(c);
    assert(abs_sp(c * FX * FX) == a * FX_SQ && a * FX_SQ <= l * FX) by (nonlinear_arith)
        requires
            a == abs_sp(c),
            a * FX <= l,
            FX == 10_000,
            FX_SQ == 100_000_000,
    ;
    let q = div_to_zero(c * FX * FX, l);
    assert(abs_sp(q) == (a * FX_SQ) / l);
    lemma_div_pos_is_pos(a * FX_SQ, l);
    lemma_div_is_ordered(a * FX_SQ, l * FX, l);
    assert((l * FX) / l == FX) by {
        lemma_div_by_multiple(FX as int, l);
        assert(l * FX == FX * l) by (nonlinear_arith);
    }
    lemma_div_bounds(a * FX_SQ, l);
}

/// A normalised vector has squared norm within integer quantisation of
/// `FX * FX`: this is the fixed-point sense in which it has unit length.
pub proof fn lemma_normalize_near_unit(v: Vec2Fx)
    requires
        abs_sp(v.x as int) <= NORM_IN_BOUND,
        abs_sp(v.y as int) <= NORM_IN_BOUND,
        !(v.x == 0 && v.y == 0),
    ensures
        ({
            let (qx, qy) = normalize_sp(v);
            UNIT_NORM_SQ_MIN <= qx * qx + qy * qy <= UNIT_NORM_SQ_MAX
        }),
{
    let x = v.x as int;
    let y = v.y as int;
    let ax = abs_sp(x);
    let ay = abs_sp(y);
    let n = scaled_norm_sq(x, y);
    let l = norm_len_sp(x, y) as int;
    lemma_norm_len_bounds(x, y);
    lemma_normalize_sp_component_bounds(v);
    lemma_square_eq_abs(x);
    lemma_square_eq_abs(y);
    let (qx0, qy0) = normalize_sp(v);
    let qx = abs_sp(qx0);
    let qy = abs_sp(qy0);
    assert(qx0 * qx0 == qx * qx && qy0 * qy0 == qy * qy) by (nonlinear_arith)
        requires
            qx == abs_sp(qx0),
            qy == abs_sp(qy0),
    ;
    // Division brackets for each component.
    lemma_div_bounds(ax * FX_SQ, l);
    lemma_div_bounds(ay * FX_SQ, l);
    assert(qx == (ax * FX_SQ) / l && qy == (ay * FX_SQ) / l) by {
        assert(abs_sp(div_to_zero(x * FX * FX, l)) == (ax * FX_SQ) / l) by {
            assert(abs_sp(x * FX * FX) == ax * FX_SQ) by (nonlinear_arith)
                requires
                    ax == abs_sp(x),
                    FX == 10_000,
                    FX_SQ == 100_000_000,
            ;
            lemma_div_pos_is_pos(ax * FX_SQ, l);
        }
        assert(abs_sp(div_to_zero(y * FX * FX, l)) == (ay * FX_SQ) / l) by {
            assert(abs_sp(y * FX * FX) == ay * FX_SQ) by (nonlinear_arith)
                requires
                    ay == abs_sp(y),
                    FX == 10_000,
                    FX_SQ == 100_000_000,
            ;
            lemma_div_pos_is_pos(ay * FX_SQ, l);
        }
    }
    assert(qx * l <= ax * FX_SQ < (qx + 1) * l);
    assert(qy * l <= ay * FX_SQ < (qy + 1) * l);
    // The scaled squared norm in terms of the absolute components.
    assert(n == (ax * FX) * (ax * FX) + (ay * FX) * (ay * FX));
    // Upper bound.
    assert(qx * qx + qy * qy <= UNIT_NORM_SQ_MAX) by (nonlinear_arith)
        requires
            0 <= qx,
            0 <= qy,
            FX <= l,
            qx * l <= ax * FX_SQ,
            qy * l <= ay * FX_SQ,
            ax * FX_SQ == (ax * FX) * FX,
            ay * FX_SQ == (ay * FX) * FX,
            n == (ax * FX) * (ax * FX) + (ay * FX) * (ay * FX),
            l * l <= n < (l + 1) * (l + 1),
            0 <= ax * FX,
            0 <= ay * FX,
            UNIT_NORM_SQ_MAX == (FX + 1) * (FX + 1),
            FX == 10_000,
    ;
    // Lower bound, in small steps: squaring the division brackets and
    // dividing out first `l * l` and then `n` leaves
    // `FX * FX < (qx + 1) * (qx + 1) + (qy + 1) * (qy + 1)`.
    let aa = ax * FX;
    let bb = ay * FX;
    assert(aa * FX == ax * FX_SQ && bb * FX == ay * FX_SQ) by (nonlinear_arith)
        requires
            aa == ax * FX,
            bb == ay * FX,
            FX == 10_000,
            FX_SQ == 100_000_000,
    ;
    assert((aa * FX) * (aa * FX) < ((qx + 1) * l) * ((qx + 1) * l)) by (nonlinear_arith)
        requires
            0 <= aa * FX,
            aa * FX < (qx + 1) * l,
    ;
    assert((bb * FX) * (bb * FX) < ((qy + 1) * l) * ((qy + 1) * l)) by (nonlinear_arith)
        requires
            0 <= bb * FX,
            bb * FX < (qy + 1) * l,
    ;
    assert((aa * FX) * (aa * FX) == (aa * aa) * (FX * FX) && (bb * FX) * (bb * FX) == (bb * bb) * (
    FX * FX)) by (nonlinear_arith);
    assert(((qx + 1) * l) * ((qx + 1) * l) == ((qx + 1) * (qx + 1)) * (l * l) && ((qy + 1) * l) * ((
    qy + 1) * l) == ((qy + 1) * (qy + 1)) * (l * l)) by (nonlinear_arith);
    let k = (qx + 1) * (qx + 1) + (qy + 1) * (qy + 1);
    assert(n * (FX * FX) < k * (l * l)) by (nonlinear_arith)
        requires
            n == aa * aa + bb * bb,
            (aa * aa) * (FX * FX) < ((qx + 1) * (qx + 1)) * (l * l),
            (bb * bb) * (FX * FX) < ((qy + 1) * (qy + 1)) * (l * l),
            k == (qx + 1) * (qx + 1) + (qy + 1) * (qy + 1),
    ;
    assert(k * (l * l) <= k * n) by (nonlinear_arith)
        requires
            l * l <= n,
            k >= 0,
    ;
    assert(n >= 1) by (nonlinear_arith)
        requires
            l * l <= n,
            l >= FX,
            FX == 10_000,
    ;
    assert(FX * FX < k) by (nonlinear_arith)
        requires
            n * (FX * FX) < k * n,
            n >= 1,
    ;
    assert(k == qx * qx + qy * qy + 2 * qx + 2 * qy + 2) by (nonlinear_arith)
        requires
            k == (qx + 1) * (qx + 1) + (qy + 1) * (qy + 1),
    ;
    assert(qx * qx + qy * qy >= UNIT_NORM_SQ_MIN);
}

/// The fixed-point unit vector pointing the way `v` does.
pub fn normalize_vec2(v: Vec2Fx) -> (r: Vec2Fx)
    requires
        abs_sp(v.x as int) <= NORM_IN_BOUND,
        abs_sp(v.y as int) <= NORM_IN_BOUND,
        !(v.x == 0 && v.y == 0),
    ensures
        (r.x as int, r.y as int) == normalize_sp(v),
        abs_sp(r.x as int) <= FX,
        abs_sp(r.y as int) <= FX,
        UNIT_NORM_SQ_MIN <= r.norm_sq_sp() <= UNIT_NORM_SQ_MAX,
{
    proof {
        lemma_norm_len_bounds(v.x as int, v.y as int);
        lemma_normalize_sp_component_bounds(v);
        lemma_normalize_near_unit(v);
        lemma_square_eq_abs(v.x as int);
        lemma_square_eq_abs(v.y as int);
    }
    let ax: u128 = (if v.x >= 0 {
        v.x
    } else {
        -v.x
    }) as u128;
    let ay: u128 = (if v.y >= 0 {
        v.y
    } else {
        -v.y
    }) as u128;
    let sx: u128 = ax * (FX as u128);
    let sy: u128 = ay * (FX as u128);
    proof {
        assert(sx * sx + sy * sy == scaled_norm_sq(v.x as int, v.y as int)) by (nonlinear_arith)
            requires
                sx == abs_sp(v.x as int) * FX,
                sy == abs_sp(v.y as int) * FX,
                scaled_norm_sq(v.x as int, v.y as int) == (abs_sp(v.x as int) * FX) * (abs_sp(
                    v.x as int,
                ) * FX) + (abs_sp(v.y as int) * FX) * (abs_sp(v.y as int) * FX),
        ;
    }
    let n: u128 = sx * sx + sy * sy;
    let l: u128 = isqrt_u128(n);
    proof {
        crate::fx::lemma_isqrt_unique(n as nat, norm_len_sp(v.x as int, v.y as int));
    }
    let qx: u128 = ax * (FX_SQ as u128) / l;
    let qy: u128 = ay * (FX_SQ as u128) / l;
    proof {
        assert(qx == (abs_sp(v.x as int) * FX_SQ) / (l as int) && qy == (abs_sp(v.y as int)
            * FX_SQ) / (l as int));
        assert(abs_sp(div_to_zero(v.x * FX * FX, l as int)) == (abs_sp(v.x as int) * FX_SQ) / (
        l as int)) by (nonlinear_arith)
            requires
                l >= 1,
                abs_sp(v.x * FX * FX) == abs_sp(v.x as int) * FX_SQ,
                div_to_zero(v.x * FX * FX, l as int) == if v.x >= 0 {
                    (v.x * FX * FX) / (l as int)
                } else {
                    -((-(v.x * FX * FX)) / (l as int))
                },
        ;
    }
    let rx: i64 = if v.x >= 0 {
        qx as i64
    } else {
        -(qx as i64)
    };
    let ry: i64 = if v.y >= 0 {
        qy as i64
    } else {
        -(qy as i64)
    };
    Vec2Fx { x: rx, y: ry }
}

} // verus!
