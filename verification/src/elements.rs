use vstd::prelude::*;
use crate::configs::CONSUMABLE_MAX_NUTRITION;
use crate::configs::CONSUMABLE_MIN_NUTRITION;
use crate::configs::FOOD_DECAY_RATE;
use crate::configs::FOOD_NUTRITION;
use crate::configs::FX;
use crate::configs::POISON_DAMAGE;
use crate::configs::POISON_DECAY_RATE;
use crate::utils::in_world_sp;
use crate::vec2::Vec2Fx;

verus! {

/// A consumable's signed nutrition value, fixed point: food is positive,
/// poison negative, and the magnitude decays toward the despawn floor.
#[derive(Clone, Copy, PartialEq, Eq, Structural, Debug)]
pub struct Consumable(pub i64);

impl Consumable {
    pub open spec fn is_food_sp(self) -> bool {
        self.0 >= CONSUMABLE_MIN_NUTRITION
    }

    pub fn is_food(&self) -> (r: bool)
        ensures
            r == self.is_food_sp(),
    {
        self.0 >= CONSUMABLE_MIN_NUTRITION
    }

    /// The nutrition magnitude never leaves `[floor, max]` on either side
    /// of zero while the consumable exists.
    pub open spec fn wf(self) -> bool {
        (CONSUMABLE_MIN_NUTRITION <= self.0 <= CONSUMABLE_MAX_NUTRITION) || (-CONSUMABLE_MAX_NUTRITION
            <= self.0 <= -CONSUMABLE_MIN_NUTRITION)
    }

    /// True once the magnitude has reached the despawn floor.
    pub open spec fn is_despawn_sp(self) -> bool {
        (self.is_food_sp() && self.0 <= CONSUMABLE_MIN_NUTRITION) || (!self.is_food_sp() && self.0
            >= -CONSUMABLE_MIN_NUTRITION)
    }

    pub fn is_despawn(&self) -> (r: bool)
        ensures
            r == self.is_despawn_sp(),
    {
        let food = self.is_food();
        (food && self.0 <= CONSUMABLE_MIN_NUTRITION) || (!food && self.0
            >= -CONSUMABLE_MIN_NUTRITION)
    }

    /// One decay step: food moves down toward the positive floor, poison up
    /// toward the negative floor, and neither crosses its floor.
    pub open spec fn decay_sp(self) -> Consumable {
        if self.is_food_sp() {
            Consumable(
                if self.0 + FOOD_DECAY_RATE >= CONSUMABLE_MIN_NUTRITION {
                    (self.0 + FOOD_DECAY_RATE) as i64
                } else {
                    CONSUMABLE_MIN_NUTRITION
                },
            )
        } else {
            Consumable(
                if self.0 + POISON_DECAY_RATE <= -CONSUMABLE_MIN_NUTRITION {
                    (self.0 + POISON_DECAY_RATE) as i64
                } else {
                    (-CONSUMABLE_MIN_NUTRITION) as i64
                },
            )
        }
    }

    pub fn decay(&mut self)
        requires
            old(self).wf(),
        ensures
            *final(self) == old(self).decay_sp(),
            final(self).wf(),
            final(self).is_food_sp() == old(self).is_food_sp(),
            old(self).is_food_sp() ==> final(self).0 >= CONSUMABLE_MIN_NUTRITION,
            !old(self).is_food_sp() ==> final(self).0 <= -CONSUMABLE_MIN_NUTRITION,
    {
        if self.is_food() {
            let v: i64 = self.0 + FOOD_DECAY_RATE;
            self.0 = if v >= CONSUMABLE_MIN_NUTRITION {
                v
            } else {
                CONSUMABLE_MIN_NUTRITION
            };
        } else {
            let v: i64 = self.0 + POISON_DECAY_RATE;
            self.0 = if v <= -CONSUMABLE_MIN_NUTRITION {
                v
            } else {
                -CONSUMABLE_MIN_NUTRITION
            };
        }
    }

    /// Presentation boundary: the nutrition relative to the kind's spawn
    /// magnitude, in fixed point.
    pub fn opacity_fx(&self) -> (r: i64)
        requires
            self.wf(),
        ensures
            self.is_food_sp() ==> r == (self.0 * FX) / (FOOD_NUTRITION as int),
            !self.is_food_sp() ==> r == ((-self.0) * FX) / (-POISON_DAMAGE as int),
            0 <= r <= 6 * FX,
    {
        if self.is_food() {
            proof {
                assert(0 <= self.0 * FX <= CONSUMABLE_MAX_NUTRITION * FX) by (nonlinear_arith)
                    requires
                        0 <= self.0 <= CONSUMABLE_MAX_NUTRITION,
                        FX == 10_000,
                ;
                crate::fx::lemma_div_bounds(self.0 * FX, FOOD_NUTRITION as int);
                vstd::arithmetic::div_mod::lemma_div_is_ordered(
                    self.0 * FX,
                    CONSUMABLE_MAX_NUTRITION * FX,
                    FOOD_NUTRITION as int,
                );
                assert(CONSUMABLE_MAX_NUTRITION * FX == 60_000 * FOOD_NUTRITION)
                    by (nonlinear_arith)
                    requires
                        CONSUMABLE_MAX_NUTRITION == 300_000,
                        FX == 10_000,
                        FOOD_NUTRITION == 50_000,
                ;
                vstd::arithmetic::div_mod::lemma_div_by_multiple(60_000, FOOD_NUTRITION as int);
            }
            (self.0 * FX) / FOOD_NUTRITION
        } else {
            let m: i64 = -self.0;
            proof {
                assert(0 <= m * FX <= CONSUMABLE_MAX_NUTRITION * FX) by (nonlinear_arith)
                    requires
                        0 <= m <= CONSUMABLE_MAX_NUTRITION,
                        FX == 10_000,
                ;
                crate::fx::lemma_div_bounds(m * FX, -POISON_DAMAGE as int);
                vstd::arithmetic::div_mod::lemma_div_is_ordered(
                    m * FX,
                    CONSUMABLE_MAX_NUTRITION * FX,
                    -POISON_DAMAGE as int,
                );
                assert(CONSUMABLE_MAX_NUTRITION * FX == 10_000 * (-POISON_DAMAGE))
                    by (nonlinear_arith)
                    requires
                        CONSUMABLE_MAX_NUTRITION == 300_000,
                        FX == 10_000,
                        POISON_DAMAGE == -300_000,
                ;
                vstd::arithmetic::div_mod::lemma_div_by_multiple(10_000, -POISON_DAMAGE as int);
            }
            (m * FX) / (-POISON_DAMAGE)
        }
    }
}

/// A consumable entity in the world: its position, nutrition and the time
/// of its last replication attempt.
#[derive(Clone, Copy, PartialEq, Eq, Structural, Debug)]
pub struct ConsumableItem {
    pub pos: Vec2Fx,
    pub consumable: Consumable,
    pub last_replication_ms: u64,
}

impl ConsumableItem {
    pub open spec fn wf(self) -> bool {
        self.consumable.wf() && in_world_sp(self.pos)
    }

    pub open spec fn is_food_sp(self) -> bool {
        self.consumable.is_food_sp()
    }

    pub fn new_food(pos: Vec2Fx, now_ms: u64) -> (r: ConsumableItem)
        requires
            in_world_sp(pos),
        ensures
            r.wf(),
            r.pos == pos,
            r.consumable.0 == FOOD_NUTRITION,
            r.is_food_sp(),
            r.last_replication_ms == now_ms,
    {
        ConsumableItem { pos, consumable: Consumable(FOOD_NUTRITION), last_replication_ms: now_ms }
    }

    pub fn new_poison(pos: Vec2Fx, now_ms: u64) -> (r: ConsumableItem)
        requires
            in_world_sp(pos),
        ensures
            r.wf(),
            r.pos == pos,
            r.consumable.0 == POISON_DAMAGE,
            !r.is_food_sp(),
            r.last_replication_ms == now_ms,
    {
        ConsumableItem { pos, consumable: Consumable(POISON_DAMAGE), last_replication_ms: now_ms }
    }
}

} // verus!
