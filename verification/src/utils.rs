use vstd::prelude::*;
use vstd::slice::slice_index_get;
use vstd::string::StringSliceAdditionalSpecFns;
use crate::configs::FX;
use crate::configs::MAX_NUM_POINTS;
use crate::configs::POS_BOUND;
use crate::configs::RAND_VEC_BOUND;
use crate::configs::UNIT_NORM_SQ_MAX;
use crate::configs::UNIT_NORM_SQ_MIN;
use crate::configs::WORLD_H;
use crate::configs::WORLD_W;
use crate::fx::abs_sp;
use crate::fx::clamp_sp;
use crate::rng::rand_i64;
use crate::vec2::normalize_vec2;
use crate::vec2::Vec2Fx;

verus! {

/// The arena rectangle as `(min_x, min_y, max_x, max_y)`, fixed point.
pub fn get_world_bounds() -> (r: (i64, i64, i64, i64))
    ensures
        r.0 == -WORLD_W && r.1 == -WORLD_H && r.2 == WORLD_W && r.3 == WORLD_H,
{
    (-WORLD_W, -WORLD_H, WORLD_W, WORLD_H)
}

pub open spec fn limit_to_world_sp(x: int, y: int) -> (int, int) {
    (clamp_sp(x, -WORLD_W as int, WORLD_W as int), clamp_sp(y, -WORLD_H as int, WORLD_H as int))
}

pub open spec fn in_world_sp(v: Vec2Fx) -> bool {
    -WORLD_W <= v.x <= WORLD_W && -WORLD_H <= v.y <= WORLD_H
}

/// Clamps a point into the arena rectangle.
pub fn limit_to_world(p: (i64, i64)) -> (r: (i64, i64))
    ensures
        (r.0 as int, r.1 as int) == limit_to_world_sp(p.0 as int, p.1 as int),
        in_world_sp(Vec2Fx { x: r.0, y: r.1 }),
{
    let x: i64 = crate::fx::clamp_i64(p.0, -WORLD_W, WORLD_W);
    let y: i64 = crate::fx::clamp_i64(p.1, -WORLD_H, WORLD_H);
    (x, y)
}

pub open spec fn steering_force_sp(target: Vec2Fx, pos: Vec2Fx, velocity: Vec2Fx) -> (int, int) {
    (target.x - pos.x - velocity.x, target.y - pos.y - velocity.y)
}

/// The desired displacement toward `target`, corrected by the current
/// velocity: `(target - pos) - velocity`.
pub fn get_steering_force(target: Vec2Fx, pos: Vec2Fx, velocity: Vec2Fx) -> (r: Vec2Fx)
    requires
        abs_sp(target.x as int) <= POS_BOUND,
        abs_sp(target.y as int) <= POS_BOUND,
        abs_sp(pos.x as int) <= POS_BOUND,
        abs_sp(pos.y as int) <= POS_BOUND,
        abs_sp(velocity.x as int) <= FX,
        abs_sp(velocity.y as int) <= FX,
    ensures
        (r.x as int, r.y as int) == steering_force_sp(target, pos, velocity),
        abs_sp(r.x as int) <= 2 * POS_BOUND + FX,
        abs_sp(r.y as int) <= 2 * POS_BOUND + FX,
{
    Vec2Fx { x: target.x - pos.x - velocity.x, y: target.y - pos.y - velocity.y }
}

/// A random direction of fixed-point unit length. The zero draw, where the
/// direction would be undefined, falls back to the positive x axis.
pub fn get_rand_unit_vec2() -> (r: Vec2Fx)
    ensures
        abs_sp(r.x as int) <= FX,
        abs_sp(r.y as int) <= FX,
        UNIT_NORM_SQ_MIN <= r.norm_sq_sp() <= UNIT_NORM_SQ_MAX,
{
    let x: i64 = rand_i64(-RAND_VEC_BOUND, RAND_VEC_BOUND);
    let y: i64 = rand_i64(-RAND_VEC_BOUND, RAND_VEC_BOUND);
    if x == 0 && y == 0 {
        proof {
            assert(FX * FX == 100_000_000) by (nonlinear_arith);
        }
        Vec2Fx { x: FX, y: 0 }
    } else {
        normalize_vec2(Vec2Fx { x, y })
    }
}

// ------------------------------------------------------------------
// Hexadecimal colour parsing.
pub open spec fn is_hex_digit_sp(b: u8) -> bool {
    (48 <= b <= 57) || (97 <= b <= 102) || (65 <= b <= 70)
}

pub open spec fn hex_digit_val_sp(b: u8) -> int {
    if 48 <= b <= 57 {
        b - 48
    } else if 97 <= b <= 102 {
        b - 87
    } else {
        b - 55
    }
}

pub open spec fn all_hex_digits_sp(s: Seq<u8>) -> bool {
    forall|i: int| 0 <= i < s.len() ==> is_hex_digit_sp(#[trigger] s[i])
}

pub open spec fn hex_num_sp(s: Seq<u8>) -> int
    decreases s.len(),
{
    if s.len() == 0 {
        0
    } else {
        hex_num_sp(s.drop_last()) * 16 + hex_digit_val_sp(s.last())
    }
}

pub open spec fn pow16(n: nat) -> int
    decreases n,
{
    if n == 0 {
        1
    } else {
        16 * pow16((n - 1) as nat)
    }
}

pub proof fn lemma_hex_num_bound(s: Seq<u8>)
    requires
        all_hex_digits_sp(s),
    ensures
        0 <= hex_num_sp(s) < pow16(s.len()),
    decreases s.len(),
{
    if s.len() == 0 {
    } else {
        lemma_hex_num_bound(s.drop_last());
        let v = hex_num_sp(s.drop_last());
        let p = pow16((s.len() - 1) as nat);
        assert(v * 16 + 15 < p * 16) by (nonlinear_arith)
            requires
                v < p,
        ;
    }
}

/// An optional leading `+` followed by at least one hex digit, as the
/// standard radix-16 integer parse accepts.
pub open spec fn parse_hex_sp(s: Seq<u8>) -> Option<int> {
    let digits = if s.len() > 0 && s[0] == 43 {
        s.drop_first()
    } else {
        s
    };
    if digits.len() > 0 && all_hex_digits_sp(digits) {
        Some(hex_num_sp(digits))
    } else {
        None
    }
}

pub open spec fn hex_to_rgba_sp(s: Seq<u8>) -> Option<(u8, u8, u8, u8)> {
    if s.len() != 6 && s.len() != 8 {
        None
    } else {
        match parse_hex_sp(s) {
            Option::None => Option::None,
            Option::Some(v0) => {
                let v = if s.len() == 8 {
                    v0
                } else {
                    v0 * 256 + 255
                };
                Option::Some(
                    (
                        (v / 0x100_0000) as u8,
                        ((v / 0x1_0000) % 256) as u8,
                        ((v / 256) % 256) as u8,
                        (v % 256) as u8,
                    ),
                )
            },
        }
    }
}

/// Parses `rrggbb` or `rrggbbaa` into colour channels; a six-digit string
/// gets an opaque alpha.
pub fn hex_to_rgba(hex: &str) -> (r: Option<(u8, u8, u8, u8)>)
    ensures
        r == hex_to_rgba_sp(hex.spec_bytes()),
{
    let b: &[u8] = hex.as_bytes();
    let n: usize = b.len();
    if n != 6 && n != 8 {
        return None;
    }
    let ghost s = hex.spec_bytes();
    let start: usize = if *slice_index_get(b, 0) == 43 {
        1
    } else {
        0
    };
    let ghost digits = if s[0] == 43 {
        s.drop_first()
    } else {
        s
    };
    proof {
        assert(digits =~= s.subrange(start as int, n as int));
    }
    let mut val: u32 = 0;
    let mut i: usize = start;
    while i < n
        invariant
            start <= i <= n,
            start == if s[0] == 43 {
                1int
            } else {
                0int
            },
            n == b@.len(),
            n == 6 || n == 8,
            s == b@,
            s == hex.spec_bytes(),
            digits =~= s.subrange(start as int, n as int),
            all_hex_digits_sp(s.subrange(start as int, i as int)),
            val == hex_num_sp(s.subrange(start as int, i as int)),
            val < pow16((i - start) as nat),
        decreases n - i,
    {
        let c: u8 = *slice_index_get(b, i);
        let d: u8 = if 48 <= c && c <= 57 {
            c - 48
        } else if 97 <= c && c <= 102 {
            c - 87
        } else if 65 <= c && c <= 70 {
            c - 55
        } else {
            proof {
                if s[0] == 43 {
                    assert(s.drop_first() =~= s.subrange(start as int, n as int));
                }
                assert(digits[i - start] == s[i as int]);
                assert(!is_hex_digit_sp(digits[i - start]));
                assert(!all_hex_digits_sp(digits));
                assert(parse_hex_sp(s) is None);
            }
            return None;
        };
        proof {
            assert(pow16(((i + 1) - start) as nat) == 16 * pow16((i - start) as nat));
            assert(pow16((i - start) as nat) <= pow16(7nat)) by {
                lemma_pow16_monotone((i - start) as nat, 7nat);
            }
            lemma_pow16_values();
            let pre = s.subrange(start as int, i as int);
            let post = s.subrange(start as int, i + 1 as int);
            assert(post.drop_last() =~= pre);
            assert(post.last() == s[i as int]);
        }
        val = val * 16 + d as u32;
        i = i + 1;
    }
    proof {
        assert(s.subrange(start as int, n as int) =~= digits);
        assert(parse_hex_sp(s) == Some(hex_num_sp(digits)));
        lemma_pow16_values();
        lemma_pow16_monotone((n - start) as nat, 8nat);
        lemma_hex_num_bound(digits);
    }
    let v: u32 = if n == 6 {
        proof {
            lemma_pow16_monotone((n - start) as nat, 6nat);
        }
        val * 256 + 255
    } else {
        val
    };
    Some(((v / 0x100_0000) as u8, ((v / 0x1_0000) % 256) as u8, ((v / 256) % 256) as u8, (v % 256) as u8))
}

pub proof fn lemma_pow16_values()
    ensures
        pow16(0nat) == 1,
        pow16(1nat) == 16,
        pow16(2nat) == 256,
        pow16(3nat) == 0x1000,
        pow16(4nat) == 0x1_0000,
        pow16(5nat) == 0x10_0000,
        pow16(6nat) == 0x100_0000,
        pow16(7nat) == 0x1000_0000,
        pow16(8nat) == 0x1_0000_0000,
{
    assert(pow16(0nat) == 1);
    assert(pow16(1nat) == 16);
    assert(pow16(2nat) == 256);
    assert(pow16(3nat) == 0x1000);
    assert(pow16(4nat) == 0x1_0000);
    assert(pow16(5nat) == 0x10_0000);
    assert(pow16(6nat) == 0x100_0000);
    assert(pow16(7nat) == 0x1000_0000);
    assert(pow16(8nat) == 0x1_0000_0000);
}

pub proof fn lemma_pow16_pos(n: nat)
    ensures
        pow16(n) >= 1,
    decreases n,
{
    if n > 0 {
        lemma_pow16_pos((n - 1) as nat);
    }
}

pub proof fn lemma_pow16_monotone(a: nat, b: nat)
    requires
        a <= b,
    ensures
        pow16(a) <= pow16(b),
    decreases b,
{
    if a < b {
        lemma_pow16_monotone(a, (b - 1) as nat);
        lemma_pow16_pos((b - 1) as nat);
        assert(pow16(b) == 16 * pow16((b - 1) as nat));
    }
}

// ------------------------------------------------------------------
// A time series capped at `max_size` points: pushing past the cap drops
// the oldest point.
pub open spec fn limited_push_sp<T>(s: Seq<T>, max: int, v: T) -> Seq<T> {
    if s.len() + 1 > max {
        s.push(v).drop_first()
    } else {
        s.push(v)
    }
}

pub struct LimitedVec<T> {
    pub items: Vec<T>,
    pub max_size: usize,
}

impl<T> LimitedVec<T> {
    pub open spec fn wf(self) -> bool {
        self.items@.len() <= self.max_size
    }

    pub fn new() -> (r: LimitedVec<T>)
        ensures
            r.items@.len() == 0,
            r.max_size == MAX_NUM_POINTS,
            r.wf(),
    {
        LimitedVec { items: Vec::new(), max_size: MAX_NUM_POINTS }
    }

    pub fn push(&mut self, item: T)
        ensures
            final(self).max_size == old(self).max_size,
            final(self).items@ == limited_push_sp(
                old(self).items@,
                old(self).max_size as int,
                item,
            ),
            old(self).wf() ==> final(self).wf(),
            old(self).max_size > 0 ==> final(self).items@.len() > 0 && final(self).items@.last()
                == item,
    {
        self.items.push(item);
        if self.items.len() > self.max_size {
            self.items.remove(0);
            proof {
                assert(self.items@ =~= old(self).items@.push(item).drop_first());
            }
        }
    }
}

} // verus!
