use vstd::prelude::*;
use crate::configs::ACC_BOUND;
use crate::configs::BOID_MAX_HEALTH;
use crate::configs::BOID_REPLICATE_INTERVAL_MS;
use crate::configs::BOID_TICK_DAMAGE;
use crate::configs::FX;
use crate::configs::MUTATION_GATE;
use crate::configs::MUTATION_SIGN_GATE;
use crate::configs::MUTATION_STEP_BASE;
use crate::configs::MUTATION_STEP_PERCEPTION;
use crate::configs::MUTATION_STEP_STEERING;
use crate::configs::PERCEPTION_MAX;
use crate::configs::PERCEPTION_MIN;
use crate::configs::POS_BOUND;
use crate::configs::PREY_PERCEPTION_MAX;
use crate::configs::PREY_PERCEPTION_MIN;
use crate::configs::PREY_PULL_MAX;
use crate::configs::PREY_PULL_MIN;
use crate::configs::PROB_ONE;
use crate::configs::PULL_MAX;
use crate::configs::PULL_MIN;
use crate::configs::SPEED_MAX;
use crate::configs::SPEED_MIN;
use crate::configs::STEERING_FORCE_MAX;
use crate::configs::STEERING_FORCE_MIN;
use crate::configs::TRAIT_BOUND;
use crate::configs::UNIT_NORM_SQ_MAX;
use crate::configs::UNIT_NORM_SQ_MIN;
use crate::fx::abs_sp;
use crate::fx::clamp_i64;
use crate::fx::clamp_sp;
use crate::rng::rand_i64;
use crate::utils::get_rand_unit_vec2;
use crate::vec2::Vec2Fx;

verus! {

/// The heritable trait vector of an agent, fixed point.
#[derive(Clone, Copy, PartialEq, Eq, Structural, Debug)]
pub struct Dna {
    pub steering_force: i64,
    pub speed: i64,
    pub food_pull: i64,
    pub poison_pull: i64,
    pub predator_pull: i64,
    pub food_perception_radius: i64,
    pub poison_perception_radius: i64,
    pub predator_perception_radius: i64,
}

/// The extra trait block a predator carries.
#[derive(Clone, Copy, PartialEq, Eq, Structural, Debug)]
pub struct PredatorDna {
    pub prey_perception: i64,
    pub prey_pull: i64,
}

/// One mutation decision per mutable trait: `-1`, `0` or `1`, scaled by the
/// trait's own step when applied.
#[derive(Clone, Copy, PartialEq, Eq, Structural, Debug)]
pub struct MutationDeltas {
    pub steering: i64,
    pub speed: i64,
    pub food_pull: i64,
    pub poison_pull: i64,
    pub predator_pull: i64,
    pub food_radius: i64,
    pub poison_radius: i64,
}

/// Mutation decisions for a predator's extra traits.
#[derive(Clone, Copy, PartialEq, Eq, Structural, Debug)]
pub struct PredatorDeltas {
    pub perception: i64,
    pub pull: i64,
}

pub open spec fn is_delta(d: i64) -> bool {
    d == -1 || d == 0 || d == 1
}

impl MutationDeltas {
    pub open spec fn wf(self) -> bool {
        is_delta(self.steering) && is_delta(self.speed) && is_delta(self.food_pull) && is_delta(
            self.poison_pull,
        ) && is_delta(self.predator_pull) && is_delta(self.food_radius) && is_delta(
            self.poison_radius,
        )
    }
}

impl PredatorDeltas {
    pub open spec fn wf(self) -> bool {
        is_delta(self.perception) && is_delta(self.pull)
    }
}

/// One mutation decision: usually no change, otherwise a unit step whose
/// sign a second draw picks.
pub fn rand_mutation_delta() -> (d: i64)
    ensures
        is_delta(d),
{
    let r: i64 = rand_i64(0, PROB_ONE);
    if r >= MUTATION_GATE {
        let s: i64 = rand_i64(0, PROB_ONE);
        if s >= MUTATION_SIGN_GATE {
            1
        } else {
            -1
        }
    } else {
        0
    }
}

impl MutationDeltas {
    pub fn rand() -> (r: MutationDeltas)
        ensures
            r.wf(),
    {
        MutationDeltas {
            steering: rand_mutation_delta(),
            speed: rand_mutation_delta(),
            food_pull: rand_mutation_delta(),
            poison_pull: rand_mutation_delta(),
            predator_pull: rand_mutation_delta(),
            food_radius: rand_mutation_delta(),
            poison_radius: rand_mutation_delta(),
        }
    }
}

impl PredatorDeltas {
    pub fn rand() -> (r: PredatorDeltas)
        ensures
            r.wf(),
    {
        PredatorDeltas { perception: rand_mutation_delta(), pull: rand_mutation_delta() }
    }
}

/// A trait value after one mutation decision: the signed step is added and
/// the result pulled back into the trait's representable range.
pub open spec fn mutate_trait_sp(v: int, delta: int, step: int, lo: int) -> int {
    clamp_sp(v + delta * step, lo, TRAIT_BOUND as int)
}

/// A unit decision times a step is one of `-step`, `0`, `step`.
pub proof fn lemma_delta_scale(d: int, step: int)
    requires
        d == -1 || d == 0 || d == 1,
    ensures
        d * step == if d == 0 {
            0int
        } else if d == 1 {
            step
        } else {
            -step
        },
{
    assert(d * step == if d == 0 {
        0int
    } else if d == 1 {
        step
    } else {
        -step
    }) by (nonlinear_arith)
        requires
            d == -1 || d == 0 || d == 1,
    ;
}

pub fn mutate_trait(v: i64, delta: i64, step: i64, lo: i64) -> (r: i64)
    requires
        is_delta(delta),
        0 < step <= 1_000_000,
        -TRAIT_BOUND <= lo <= 0,
        abs_sp(v as int) <= TRAIT_BOUND,
    ensures
        r == mutate_trait_sp(v as int, delta as int, step as int, lo as int),
        abs_sp(r as int) <= TRAIT_BOUND,
        lo <= r,
{
    proof {
        lemma_delta_scale(delta as int, step as int);
    }
    clamp_i64(v + delta * step, lo, TRAIT_BOUND)
}

/// A genome whose every trait lies in its random-initialisation range.
pub open spec fn dna_in_init_ranges(d: Dna) -> bool {
    &&& STEERING_FORCE_MIN <= d.steering_force < STEERING_FORCE_MAX
    &&& SPEED_MIN <= d.speed < SPEED_MAX
    &&& PULL_MIN <= d.food_pull < PULL_MAX
    &&& PULL_MIN <= d.poison_pull < PULL_MAX
    &&& PULL_MIN <= d.predator_pull < PULL_MAX
    &&& PERCEPTION_MIN <= d.food_perception_radius < PERCEPTION_MAX
    &&& PERCEPTION_MIN <= d.poison_perception_radius < PERCEPTION_MAX
    &&& PERCEPTION_MIN <= d.predator_perception_radius < PERCEPTION_MAX
}

/// A predator trait block inside its random-initialisation ranges.
pub open spec fn predator_dna_in_init_ranges(p: PredatorDna) -> bool {
    &&& PREY_PERCEPTION_MIN <= p.prey_perception < PREY_PERCEPTION_MAX
    &&& PREY_PULL_MIN <= p.prey_pull < PREY_PULL_MAX
}

impl Dna {
    /// Traits stay inside the representable range and perception radii
    /// never go negative.
    pub open spec fn wf(self) -> bool {
        &&& abs_sp(self.steering_force as int) <= TRAIT_BOUND
        &&& abs_sp(self.speed as int) <= TRAIT_BOUND
        &&& abs_sp(self.food_pull as int) <= TRAIT_BOUND
        &&& abs_sp(self.poison_pull as int) <= TRAIT_BOUND
        &&& abs_sp(self.predator_pull as int) <= TRAIT_BOUND
        &&& 0 <= self.food_perception_radius <= TRAIT_BOUND
        &&& 0 <= self.poison_perception_radius <= TRAIT_BOUND
        &&& 0 <= self.predator_perception_radius <= TRAIT_BOUND
    }

    /// A fresh genome: every trait drawn uniformly from its initial range.
    pub fn rand() -> (r: Dna)
        ensures
            r.wf(),
            dna_in_init_ranges(r),
    {
        Dna {
            steering_force: rand_i64(STEERING_FORCE_MIN, STEERING_FORCE_MAX),
            speed: rand_i64(SPEED_MIN, SPEED_MAX),
            food_pull: rand_i64(PULL_MIN, PULL_MAX),
            poison_pull: rand_i64(PULL_MIN, PULL_MAX),
            predator_pull: rand_i64(PULL_MIN, PULL_MAX),
            food_perception_radius: rand_i64(PERCEPTION_MIN, PERCEPTION_MAX),
            poison_perception_radius: rand_i64(PERCEPTION_MIN, PERCEPTION_MAX),
            predator_perception_radius: rand_i64(PERCEPTION_MIN, PERCEPTION_MAX),
        }
    }

    /// The genome after one round of mutation decisions. The predator
    /// perception radius is not a mutable trait: a child always inherits it
    /// unchanged.
    pub open spec fn apply_mutation_sp(self, d: MutationDeltas) -> Dna {
        Dna {
            steering_force: mutate_trait_sp(
                self.steering_force as int,
                d.steering as int,
                MUTATION_STEP_STEERING as int,
                -TRAIT_BOUND as int,
            ) as i64,
            speed: mutate_trait_sp(
                self.speed as int,
                d.speed as int,
                MUTATION_STEP_BASE as int,
                -TRAIT_BOUND as int,
            ) as i64,
            food_pull: mutate_trait_sp(
                self.food_pull as int,
                d.food_pull as int,
                MUTATION_STEP_BASE as int,
                -TRAIT_BOUND as int,
            ) as i64,
            poison_pull: mutate_trait_sp(
                self.poison_pull as int,
                d.poison_pull as int,
                MUTATION_STEP_BASE as int,
                -TRAIT_BOUND as int,
            ) as i64,
            predator_pull: mutate_trait_sp(
                self.predator_pull as int,
                d.predator_pull as int,
                MUTATION_STEP_BASE as int,
                -TRAIT_BOUND as int,
            ) as i64,
            food_perception_radius: mutate_trait_sp(
                self.food_perception_radius as int,
                d.food_radius as int,
                MUTATION_STEP_PERCEPTION as int,
                0,
            ) as i64,
            poison_perception_radius: mutate_trait_sp(
                self.poison_perception_radius as int,
                d.poison_radius as int,
                MUTATION_STEP_PERCEPTION as int,
                0,
            ) as i64,
            predator_perception_radius: self.predator_perception_radius,
        }
    }

    pub fn apply_mutation(&self, d: MutationDeltas) -> (r: Dna)
        requires
            self.wf(),
            d.wf(),
        ensures
            r == self.apply_mutation_sp(d),
            r.wf(),
    {
        Dna {
            steering_force: mutate_trait(self.steering_force, d.steering, MUTATION_STEP_STEERING, -TRAIT_BOUND),
            speed: mutate_trait(self.speed, d.speed, MUTATION_STEP_BASE, -TRAIT_BOUND),
            food_pull: mutate_trait(self.food_pull, d.food_pull, MUTATION_STEP_BASE, -TRAIT_BOUND),
            poison_pull: mutate_trait(self.poison_pull, d.poison_pull, MUTATION_STEP_BASE, -TRAIT_BOUND),
            predator_pull: mutate_trait(self.predator_pull, d.predator_pull, MUTATION_STEP_BASE, -TRAIT_BOUND),
            food_perception_radius: mutate_trait(
                self.food_perception_radius,
                d.food_radius,
                MUTATION_STEP_PERCEPTION,
                0,
            ),
            poison_perception_radius: mutate_trait(
                self.poison_perception_radius,
                d.poison_radius,
                MUTATION_STEP_PERCEPTION,
                0,
            ),
            predator_perception_radius: self.predator_perception_radius,
        }
    }

    /// Mutates the genome in place with fresh random decisions.
    pub fn mutate(&mut self)
        requires
            old(self).wf(),
        ensures
            final(self).wf(),
            exists|d: MutationDeltas| d.wf() && *final(self) == old(self).apply_mutation_sp(d),
    {
        let d = MutationDeltas::rand();
        let r = self.apply_mutation(d);
        *self = r;
        proof {
            assert(d.wf() && *self == old(self).apply_mutation_sp(d));
        }
    }
}

impl PredatorDna {
    pub open spec fn wf(self) -> bool {
        &&& 0 <= self.prey_perception <= TRAIT_BOUND
        &&& abs_sp(self.prey_pull as int) <= TRAIT_BOUND
    }

    pub fn rand() -> (r: PredatorDna)
        ensures
            r.wf(),
            predator_dna_in_init_ranges(r),
    {
        PredatorDna {
            prey_perception: rand_i64(PREY_PERCEPTION_MIN, PREY_PERCEPTION_MAX),
            prey_pull: rand_i64(PREY_PULL_MIN, PREY_PULL_MAX),
        }
    }

    pub open spec fn apply_mutation_sp(self, d: PredatorDeltas) -> PredatorDna {
        PredatorDna {
            prey_perception: mutate_trait_sp(
                self.prey_perception as int,
                d.perception as int,
                MUTATION_STEP_PERCEPTION as int,
                0,
            ) as i64,
            prey_pull: mutate_trait_sp(
                self.prey_pull as int,
                d.pull as int,
                MUTATION_STEP_BASE as int,
                -TRAIT_BOUND as int,
            ) as i64,
        }
    }

    pub fn apply_mutation(&self, d: PredatorDeltas) -> (r: PredatorDna)
        requires
            self.wf(),
            d.wf(),
        ensures
            r == self.apply_mutation_sp(d),
            r.wf(),
    {
        PredatorDna {
            prey_perception: mutate_trait(self.prey_perception, d.perception, MUTATION_STEP_PERCEPTION, 0),
            prey_pull: mutate_trait(self.prey_pull, d.pull, MUTATION_STEP_BASE, -TRAIT_BOUND),
        }
    }

    pub fn mutate(&mut self)
        requires
            old(self).wf(),
        ensures
            final(self).wf(),
            exists|d: PredatorDeltas| d.wf() && *final(self) == old(self).apply_mutation_sp(d),
    {
        let d = PredatorDeltas::rand();
        let r = self.apply_mutation(d);
        *self = r;
        proof {
            assert(d.wf() && *self == old(self).apply_mutation_sp(d));
        }
    }
}

/// Replication round-trip. A trait whose mutation decision is zero is
/// inherited exactly, with no side condition. A selected trait moves by
/// exactly its step whenever the parent trait leaves room for the step
/// inside the representable range, and never by more than its step: the
/// clamp at the fixed-point range (a machine limit) can only shorten it.
pub proof fn lemma_mutation_round_trip(g: Dna, d: MutationDeltas)
    requires
        g.wf(),
        d.wf(),
    ensures
        ({
            let m = g.apply_mutation_sp(d);
            &&& m.predator_perception_radius == g.predator_perception_radius
            &&& (d.steering == 0 ==> m.steering_force == g.steering_force)
            &&& (d.speed == 0 ==> m.speed == g.speed)
            &&& (d.food_pull == 0 ==> m.food_pull == g.food_pull)
            &&& (d.poison_pull == 0 ==> m.poison_pull == g.poison_pull)
            &&& (d.predator_pull == 0 ==> m.predator_pull == g.predator_pull)
            &&& (d.food_radius == 0 ==> m.food_perception_radius == g.food_perception_radius)
            &&& (d.poison_radius == 0 ==> m.poison_perception_radius
                == g.poison_perception_radius)
            &&& (d.steering != 0 && abs_sp(g.steering_force as int) <= TRAIT_BOUND
                - MUTATION_STEP_STEERING ==> abs_sp(m.steering_force - g.steering_force)
                == MUTATION_STEP_STEERING)
            &&& (d.speed != 0 && abs_sp(g.speed as int) <= TRAIT_BOUND - MUTATION_STEP_BASE
                ==> abs_sp(m.speed - g.speed) == MUTATION_STEP_BASE)
            &&& (d.food_pull != 0 && abs_sp(g.food_pull as int) <= TRAIT_BOUND
                - MUTATION_STEP_BASE ==> abs_sp(m.food_pull - g.food_pull)
                == MUTATION_STEP_BASE)
            &&& (d.poison_pull != 0 && abs_sp(g.poison_pull as int) <= TRAIT_BOUND
                - MUTATION_STEP_BASE ==> abs_sp(m.poison_pull - g.poison_pull)
                == MUTATION_STEP_BASE)
            &&& (d.predator_pull != 0 && abs_sp(g.predator_pull as int) <= TRAIT_BOUND
                - MUTATION_STEP_BASE ==> abs_sp(m.predator_pull - g.predator_pull)
                == MUTATION_STEP_BASE)
            &&& (d.food_radius != 0 && MUTATION_STEP_PERCEPTION <= g.food_perception_radius
                <= TRAIT_BOUND - MUTATION_STEP_PERCEPTION ==> abs_sp(
                m.food_perception_radius - g.food_perception_radius,
            ) == MUTATION_STEP_PERCEPTION)
            &&& (d.poison_radius != 0 && MUTATION_STEP_PERCEPTION <= g.poison_perception_radius
                <= TRAIT_BOUND - MUTATION_STEP_PERCEPTION ==> abs_sp(
                m.poison_perception_radius - g.poison_perception_radius,
            ) == MUTATION_STEP_PERCEPTION)
            &&& abs_sp(m.steering_force - g.steering_force) <= MUTATION_STEP_STEERING
            &&& abs_sp(m.speed - g.speed) <= MUTATION_STEP_BASE
            &&& abs_sp(m.food_pull - g.food_pull) <= MUTATION_STEP_BASE
            &&& abs_sp(m.poison_pull - g.poison_pull) <= MUTATION_STEP_BASE
            &&& abs_sp(m.predator_pull - g.predator_pull) <= MUTATION_STEP_BASE
            &&& abs_sp(m.food_perception_radius - g.food_perception_radius)
                <= MUTATION_STEP_PERCEPTION
            &&& abs_sp(m.poison_perception_radius - g.poison_perception_radius)
                <= MUTATION_STEP_PERCEPTION
        }),
{
    lemma_delta_scale(d.steering as int, MUTATION_STEP_STEERING as int);
    lemma_delta_scale(d.speed as int, MUTATION_STEP_BASE as int);
    lemma_delta_scale(d.food_pull as int, MUTATION_STEP_BASE as int);
    lemma_delta_scale(d.poison_pull as int, MUTATION_STEP_BASE as int);
    lemma_delta_scale(d.predator_pull as int, MUTATION_STEP_BASE as int);
    lemma_delta_scale(d.food_radius as int, MUTATION_STEP_PERCEPTION as int);
    lemma_delta_scale(d.poison_radius as int, MUTATION_STEP_PERCEPTION as int);
}

/// The predator-trait half of the replication round-trip, with the same
/// shape: exact inheritance unconditionally, an exact step given room
/// inside the representable range, and never more than the step.
pub proof fn lemma_predator_mutation_round_trip(g: PredatorDna, d: PredatorDeltas)
    requires
        g.wf(),
        d.wf(),
    ensures
        ({
            let m = g.apply_mutation_sp(d);
            &&& (d.perception == 0 ==> m.prey_perception == g.prey_perception)
            &&& (d.pull == 0 ==> m.prey_pull == g.prey_pull)
            &&& (d.perception != 0 && MUTATION_STEP_PERCEPTION <= g.prey_perception
                <= TRAIT_BOUND - MUTATION_STEP_PERCEPTION ==> abs_sp(
                m.prey_perception - g.prey_perception,
            ) == MUTATION_STEP_PERCEPTION)
            &&& (d.pull != 0 && abs_sp(g.prey_pull as int) <= TRAIT_BOUND - MUTATION_STEP_BASE
                ==> abs_sp(m.prey_pull - g.prey_pull) == MUTATION_STEP_BASE)
            &&& abs_sp(m.prey_perception - g.prey_perception) <= MUTATION_STEP_PERCEPTION
            &&& abs_sp(m.prey_pull - g.prey_pull) <= MUTATION_STEP_BASE
        }),
{
    lemma_delta_scale(d.perception as int, MUTATION_STEP_PERCEPTION as int);
    lemma_delta_scale(d.pull as int, MUTATION_STEP_BASE as int);
}

/// An agent: a boid, or a predator when the predator trait block is present.
#[derive(Clone, Copy, PartialEq, Eq, Structural, Debug)]
pub struct Boid {
    pub pos: Vec2Fx,
    pub vel: Vec2Fx,
    pub acc: Vec2Fx,
    pub health: i64,
    pub dna: Dna,
    pub predator_dna: Option<PredatorDna>,
    pub replicate_elapsed_ms: u64,
    pub birth_ms: u64,
}

impl Boid {
    pub open spec fn is_predator(self) -> bool {
        self.predator_dna is Some
    }

    /// Health stays in range, the position is representable, the velocity
    /// has fixed-point unit length, the accumulated acceleration is inside
    /// its saturation bound and the genome is well formed.
    pub open spec fn wf(self) -> bool {
        &&& 0 <= self.health <= BOID_MAX_HEALTH
        &&& abs_sp(self.pos.x as int) <= POS_BOUND
        &&& abs_sp(self.pos.y as int) <= POS_BOUND
        &&& abs_sp(self.vel.x as int) <= FX
        &&& abs_sp(self.vel.y as int) <= FX
        &&& UNIT_NORM_SQ_MIN <= self.vel.norm_sq_sp() <= UNIT_NORM_SQ_MAX
        &&& abs_sp(self.acc.x as int) <= ACC_BOUND
        &&& abs_sp(self.acc.y as int) <= ACC_BOUND
        &&& self.dna.wf()
        &&& match self.predator_dna {
            Option::Some(p) => p.wf(),
            Option::None => true,
        }
        &&& self.replicate_elapsed_ms <= BOID_REPLICATE_INTERVAL_MS
    }

    /// A newborn agent: full health, a random facing, no accumulated force
    /// and a fresh replication timer.
    pub fn spawn(pos: Vec2Fx, dna: Dna, predator_dna: Option<PredatorDna>, birth_ms: u64) -> (r:
        Boid)
        requires
            abs_sp(pos.x as int) <= POS_BOUND,
            abs_sp(pos.y as int) <= POS_BOUND,
            dna.wf(),
            match predator_dna {
                Option::Some(p) => p.wf(),
                Option::None => true,
            },
        ensures
            r.wf(),
            r.pos == pos,
            r.dna == dna,
            r.predator_dna == predator_dna,
            r.health == BOID_MAX_HEALTH,
            r.acc == Vec2Fx::zero_sp(),
            r.replicate_elapsed_ms == 0,
            r.birth_ms == birth_ms,
            r.is_predator() <==> predator_dna is Some,
    {
        Boid {
            pos,
            vel: get_rand_unit_vec2(),
            acc: Vec2Fx::zero(),
            health: BOID_MAX_HEALTH,
            dna,
            predator_dna,
            replicate_elapsed_ms: 0,
            birth_ms,
        }
    }

    /// Presentation boundary: health as a fraction of full health, in
    /// fixed point, for colour blending.
    pub fn health_fraction_fx(&self) -> (r: i64)
        requires
            0 <= self.health <= BOID_MAX_HEALTH,
        ensures
            r == (self.health * FX) / (BOID_MAX_HEALTH as int),
            0 <= r <= FX,
    {
        proof {
            assert(self.health * FX <= BOID_MAX_HEALTH * FX && self.health * FX >= 0) by (nonlinear_arith)
                requires
                    0 <= self.health <= BOID_MAX_HEALTH,
                    FX == 10_000,
            ;
            crate::fx::lemma_div_bounds(self.health * FX, BOID_MAX_HEALTH as int);
            vstd::arithmetic::div_mod::lemma_div_is_ordered(
                self.health * FX,
                BOID_MAX_HEALTH * FX,
                BOID_MAX_HEALTH as int,
            );
            vstd::arithmetic::div_mod::lemma_div_by_multiple(FX as int, BOID_MAX_HEALTH as int);
            assert(BOID_MAX_HEALTH * FX == FX * BOID_MAX_HEALTH) by (nonlinear_arith);
        }
        self.health * FX / BOID_MAX_HEALTH
    }
}

/// Damage charged by one health tick: the base damage scaled by the speed
/// trait (floored at one world unit), halved.
pub open spec fn health_tick_damage_sp(speed: int) -> int {
    let s = if speed >= FX {
        speed
    } else {
        FX as int
    };
    (BOID_TICK_DAMAGE * s) / (2 * FX)
}

pub fn health_tick_damage(speed: i64) -> (r: i64)
    requires
        abs_sp(speed as int) <= TRAIT_BOUND,
    ensures
        r == health_tick_damage_sp(speed as int),
        0 <= r,
{
    let s: i64 = if speed >= FX {
        speed
    } else {
        FX
    };
    proof {
        assert(BOID_TICK_DAMAGE * s <= BOID_TICK_DAMAGE * TRAIT_BOUND && BOID_TICK_DAMAGE * s
            >= BOID_TICK_DAMAGE * FX) by (nonlinear_arith)
            requires
                FX <= s <= TRAIT_BOUND,
                BOID_TICK_DAMAGE == 40_000,
        ;
        vstd::arithmetic::div_mod::lemma_div_pos_is_pos(
            BOID_TICK_DAMAGE * s,
            2 * FX as int,
        );
    }
    (BOID_TICK_DAMAGE * s) / (2 * FX)
}

} // verus!
