use vstd::prelude::*;
use crate::boid::Boid;
use crate::configs::FX;
use crate::configs::NUM_BOIDS;
use crate::configs::NUM_FOOD;
use crate::configs::NUM_POISON;
use crate::configs::NUM_PREDATORS;
use crate::configs::TRAIT_BOUND;
use crate::fx::clamp_sp;
use crate::fx::div_i128;
use crate::fx::div_to_zero;
use crate::utils::limited_push_sp;
use crate::utils::LimitedVec;
use crate::world::count_boids;
use crate::world::count_food;
use crate::world::count_poison;
use crate::world::count_predators;
use crate::world::World;

verus! {

/// Trait totals over the prey boids, and their total lifespan in
/// milliseconds at observation time `t`.
pub ghost struct PreySums {
    pub food_perception: int,
    pub poison_perception: int,
    pub predator_perception: int,
    pub food_pull: int,
    pub poison_pull: int,
    pub predator_pull: int,
    pub speed: int,
    pub steering: int,
    pub lifespan: int,
}

pub open spec fn prey_sums_sp(s: Seq<Boid>, t: int) -> PreySums
    decreases s.len(),
{
    if s.len() == 0 {
        PreySums {
            food_perception: 0,
            poison_perception: 0,
            predator_perception: 0,
            food_pull: 0,
            poison_pull: 0,
            predator_pull: 0,
            speed: 0,
            steering: 0,
            lifespan: 0,
        }
    } else {
        let r = prey_sums_sp(s.drop_last(), t);
        let b = s.last();
        if b.is_predator() {
            r
        } else {
            PreySums {
                food_perception: r.food_perception + b.dna.food_perception_radius,
                poison_perception: r.poison_perception + b.dna.poison_perception_radius,
                predator_perception: r.predator_perception + b.dna.predator_perception_radius,
                food_pull: r.food_pull + b.dna.food_pull,
                poison_pull: r.poison_pull + b.dna.poison_pull,
                predator_pull: r.predator_pull + b.dna.predator_pull,
                speed: r.speed + b.dna.speed,
                steering: r.steering + b.dna.steering_force,
                lifespan: r.lifespan + (t - b.birth_ms),
            }
        }
    }
}

/// Trait totals over the predators.
pub ghost struct PredatorSums {
    pub prey_perception: int,
    pub prey_pull: int,
    pub speed: int,
    pub lifespan: int,
}

pub open spec fn predator_sums_sp(s: Seq<Boid>, t: int) -> PredatorSums
    decreases s.len(),
{
    if s.len() == 0 {
        PredatorSums { prey_perception: 0, prey_pull: 0, speed: 0, lifespan: 0 }
    } else {
        let r = predator_sums_sp(s.drop_last(), t);
        let b = s.last();
        match b.predator_dna {
            Option::None => r,
            Option::Some(p) => PredatorSums {
                prey_perception: r.prey_perception + p.prey_perception,
                prey_pull: r.prey_pull + p.prey_pull,
                speed: r.speed + b.dna.speed,
                lifespan: r.lifespan + (t - b.birth_ms),
            },
        }
    }
}

/// The average of a total over a population, zero for an empty one.
pub open spec fn avg_or_zero_sp(sum: int, cnt: int) -> int {
    if cnt > 0 {
        div_to_zero(sum, cnt)
    } else {
        0
    }
}

/// A population count as a fixed-point fraction of its bootstrap size.
pub open spec fn frac_fx_sp(c: int, d: int) -> int {
    clamp_sp(div_to_zero(c * FX, d), 0, 0x7fff_ffff_ffff_ffff)
}

/// The named time series the core exposes for external plotting, each
/// capped at `MAX_NUM_POINTS` points.
pub struct SimulationStats {
    pub num_boids: LimitedVec<i64>,
    pub num_predators: LimitedVec<i64>,
    pub num_food: LimitedVec<i64>,
    pub num_poison: LimitedVec<i64>,
    pub avg_lifespan: LimitedVec<i64>,
    pub avg_predator_lifespan: LimitedVec<i64>,
    pub food_perception: LimitedVec<i64>,
    pub poison_perception: LimitedVec<i64>,
    pub predator_perception: LimitedVec<i64>,
    pub prey_perception: LimitedVec<i64>,
    pub speed: LimitedVec<i64>,
    pub predator_speed: LimitedVec<i64>,
    pub food_affinity: LimitedVec<i64>,
    pub poison_affinity: LimitedVec<i64>,
    pub predator_affinity: LimitedVec<i64>,
    pub prey_affinity: LimitedVec<i64>,
    pub steering_force: LimitedVec<i64>,
}

impl SimulationStats {
    /// Every series carries a positive point cap and respects it.
    pub open spec fn wf(self) -> bool {
        &&& self.num_boids.max_size > 0 && self.num_boids.wf()
        &&& self.num_predators.max_size > 0 && self.num_predators.wf()
        &&& self.num_food.max_size > 0 && self.num_food.wf()
        &&& self.num_poison.max_size > 0 && self.num_poison.wf()
        &&& self.avg_lifespan.max_size > 0 && self.avg_lifespan.wf()
        &&& self.avg_predator_lifespan.max_size > 0 && self.avg_predator_lifespan.wf()
        &&& self.food_perception.max_size > 0 && self.food_perception.wf()
        &&& self.poison_perception.max_size > 0 && self.poison_perception.wf()
        &&& self.predator_perception.max_size > 0 && self.predator_perception.wf()
        &&& self.prey_perception.max_size > 0 && self.prey_perception.wf()
        &&& self.speed.max_size > 0 && self.speed.wf()
        &&& self.predator_speed.max_size > 0 && self.predator_speed.wf()
        &&& self.food_affinity.max_size > 0 && self.food_affinity.wf()
        &&& self.poison_affinity.max_size > 0 && self.poison_affinity.wf()
        &&& self.predator_affinity.max_size > 0 && self.predator_affinity.wf()
        &&& self.prey_affinity.max_size > 0 && self.prey_affinity.wf()
        &&& self.steering_force.max_size > 0 && self.steering_force.wf()
    }

    pub fn new() -> (r: SimulationStats)
        ensures
            r.wf(),
            r.num_boids.items@.len() == 0,
            r.speed.items@.len() == 0,
            r.avg_lifespan.items@.len() == 0,
    {
        SimulationStats {
            num_boids: LimitedVec::new(),
            num_predators: LimitedVec::new(),
            num_food: LimitedVec::new(),
            num_poison: LimitedVec::new(),
            avg_lifespan: LimitedVec::new(),
            avg_predator_lifespan: LimitedVec::new(),
            food_perception: LimitedVec::new(),
            poison_perception: LimitedVec::new(),
            predator_perception: LimitedVec::new(),
            prey_perception: LimitedVec::new(),
            speed: LimitedVec::new(),
            predator_speed: LimitedVec::new(),
            food_affinity: LimitedVec::new(),
            poison_affinity: LimitedVec::new(),
            predator_affinity: LimitedVec::new(),
            prey_affinity: LimitedVec::new(),
            steering_force: LimitedVec::new(),
        }
    }
}

/// Divides a trait total by a population count.
fn avg_trait(sum: i64, cnt: usize) -> (r: i64)
    requires
        -110 * TRAIT_BOUND <= sum <= 110 * TRAIT_BOUND,
    ensures
        r == avg_or_zero_sp(sum as int, cnt as int),
{
    if cnt > 0 {
        let q: i128 = div_i128(sum as i128, cnt as i128);
        proof {
            crate::fx::lemma_div_to_zero_abs(sum as int, cnt as int);
        }
        q as i64
    } else {
        0
    }
}

/// A count as a fixed-point fraction of a positive reference size.
fn frac_fx(c: usize, d: usize) -> (r: i64)
    requires
        0 < d,
    ensures
        r == frac_fx_sp(c as int, d as int),
{
    let v: i128 = (c as i128) * (FX as i128) / (d as i128);
    proof {
        vstd::arithmetic::div_mod::lemma_div_pos_is_pos(c as int * FX, d as int);
        assert(c as int * FX >= 0) by (nonlinear_arith)
            requires
                c >= 0,
                FX == 10_000,
        ;
    }
    if v > 0x7fff_ffff_ffff_ffff {
        0x7fff_ffff_ffff_ffff
    } else {
        v as i64
    }
}

impl SimulationStats {
    /// Observability pass: appends to every series the current population
    /// sizes, as fractions of their bootstrap sizes, and the current
    /// per-genome trait and lifespan averages.
    pub fn update_stats(&mut self, w: &World)
        requires
            w.wf(),
            old(self).wf(),
        ensures
            final(self).wf(),
            ({
                let bs = w.boids@;
                let t = w.time_ms as int;
                let ps = prey_sums_sp(bs, t);
                let qs = predator_sums_sp(bs, t);
                let cb = count_boids(bs);
                let cp = count_predators(bs);
                &&& final(self).num_boids.items@ == limited_push_sp(
                    old(self).num_boids.items@,
                    old(self).num_boids.max_size as int,
                    final(self).num_boids.items@.last(),
                ) && final(self).num_boids.items@.last() == frac_fx_sp(cb, NUM_BOIDS as int)
                &&& final(self).num_predators.items@ == limited_push_sp(
                    old(self).num_predators.items@,
                    old(self).num_predators.max_size as int,
                    final(self).num_predators.items@.last(),
                ) &&& final(self).num_predators.items@.last() == frac_fx_sp(
                    cp,
                    NUM_PREDATORS as int,
                )
                &&& final(self).num_food.items@ == limited_push_sp(
                    old(self).num_food.items@,
                    old(self).num_food.max_size as int,
                    final(self).num_food.items@.last(),
                ) &&& final(self).num_food.items@.last() == frac_fx_sp(
                    count_food(w.consumables@),
                    NUM_FOOD as int,
                )
                &&& final(self).num_poison.items@ == limited_push_sp(
                    old(self).num_poison.items@,
                    old(self).num_poison.max_size as int,
                    final(self).num_poison.items@.last(),
                ) &&& final(self).num_poison.items@.last() == frac_fx_sp(
                    count_poison(w.consumables@),
                    NUM_POISON as int,
                )
                &&& final(self).food_perception.items@ == limited_push_sp(
                    old(self).food_perception.items@,
                    old(self).food_perception.max_size as int,
                    final(self).food_perception.items@.last(),
                ) &&& final(self).food_perception.items@.last() == avg_or_zero_sp(
                    ps.food_perception,
                    cb,
                )
                &&& final(self).poison_perception.items@ == limited_push_sp(
                    old(self).poison_perception.items@,
                    old(self).poison_perception.max_size as int,
                    final(self).poison_perception.items@.last(),
                ) &&& final(self).poison_perception.items@.last() == avg_or_zero_sp(
                    ps.poison_perception,
                    cb,
                )
                &&& final(self).predator_perception.items@ == limited_push_sp(
                    old(self).predator_perception.items@,
                    old(self).predator_perception.max_size as int,
                    final(self).predator_perception.items@.last(),
                ) &&& final(self).predator_perception.items@.last() == avg_or_zero_sp(
                    ps.predator_perception,
                    cb,
                )
                &&& final(self).prey_perception.items@ == limited_push_sp(
                    old(self).prey_perception.items@,
                    old(self).prey_perception.max_size as int,
                    final(self).prey_perception.items@.last(),
                ) &&& final(self).prey_perception.items@.last() == avg_or_zero_sp(
                    qs.prey_perception,
                    cp,
                )
                &&& final(self).food_affinity.items@ == limited_push_sp(
                    old(self).food_affinity.items@,
                    old(self).food_affinity.max_size as int,
                    final(self).food_affinity.items@.last(),
                ) &&& final(self).food_affinity.items@.last() == avg_or_zero_sp(ps.food_pull, cb)
                &&& final(self).poison_affinity.items@ == limited_push_sp(
                    old(self).poison_affinity.items@,
                    old(self).poison_affinity.max_size as int,
                    final(self).poison_affinity.items@.last(),
                ) &&& final(self).poison_affinity.items@.last() == avg_or_zero_sp(
                    ps.poison_pull,
                    cb,
                )
                &&& final(self).predator_affinity.items@ == limited_push_sp(
                    old(self).predator_affinity.items@,
                    old(self).predator_affinity.max_size as int,
                    final(self).predator_affinity.items@.last(),
                ) &&& final(self).predator_affinity.items@.last() == avg_or_zero_sp(
                    ps.predator_pull,
                    cb,
                )
                &&& final(self).prey_affinity.items@ == limited_push_sp(
                    old(self).prey_affinity.items@,
                    old(self).prey_affinity.max_size as int,
                    final(self).prey_affinity.items@.last(),
                ) &&& final(self).prey_affinity.items@.last() == avg_or_zero_sp(qs.prey_pull, cp)
                &&& final(self).speed.items@ == limited_push_sp(
                    old(self).speed.items@,
                    old(self).speed.max_size as int,
                    final(self).speed.items@.last(),
                ) &&& final(self).speed.items@.last() == avg_or_zero_sp(ps.speed, cb)
                &&& final(self).predator_speed.items@ == limited_push_sp(
                    old(self).predator_speed.items@,
                    old(self).predator_speed.max_size as int,
                    final(self).predator_speed.items@.last(),
                ) &&& final(self).predator_speed.items@.last() == avg_or_zero_sp(qs.speed, cp)
                &&& final(self).steering_force.items@ == limited_push_sp(
                    old(self).steering_force.items@,
                    old(self).steering_force.max_size as int,
                    final(self).steering_force.items@.last(),
                ) &&& final(self).steering_force.items@.last() == avg_or_zero_sp(ps.steering, cb)
                &&& final(self).avg_lifespan.items@ == limited_push_sp(
                    old(self).avg_lifespan.items@,
                    old(self).avg_lifespan.max_size as int,
                    final(self).avg_lifespan.items@.last(),
                ) &&& final(self).avg_lifespan.items@.last() == clamp_sp(
                    avg_or_zero_sp(ps.lifespan, cb),
                    0,
                    0x7fff_ffff_ffff_ffff,
                )
                &&& final(self).avg_predator_lifespan.items@ == limited_push_sp(
                    old(self).avg_predator_lifespan.items@,
                    old(self).avg_predator_lifespan.max_size as int,
                    final(self).avg_predator_lifespan.items@.last(),
                ) &&& final(self).avg_predator_lifespan.items@.last() == clamp_sp(
                    avg_or_zero_sp(qs.lifespan, cp),
                    0,
                    0x7fff_ffff_ffff_ffff,
                )
            }),
    {
        let bs: &Vec<Boid> = &w.boids;
        let n: usize = bs.len();
        let counts: (usize, usize) = crate::world::count_kinds(bs);
        let cb: usize = counts.0;
        let cp: usize = counts.1;
        let ccounts: (usize, usize) = crate::world::count_consumable_kinds(&w.consumables);
        proof {
            crate::world::lemma_counts_bounds(bs@);
        }
        let mut s_food_perc: i64 = 0;
        let mut s_poison_perc: i64 = 0;
        let mut s_pred_perc: i64 = 0;
        let mut s_food_pull: i64 = 0;
        let mut s_poison_pull: i64 = 0;
        let mut s_pred_pull: i64 = 0;
        let mut s_speed: i64 = 0;
        let mut s_steer: i64 = 0;
        let mut s_life: u128 = 0;
        let mut q_prey_perc: i64 = 0;
        let mut q_prey_pull: i64 = 0;
        let mut q_speed: i64 = 0;
        let mut q_life: u128 = 0;
        let ghost t = w.time_ms as int;
        let mut i: usize = 0;
        while i < n
            invariant
                i <= n,
                n == bs@.len(),
                n <= NUM_BOIDS + NUM_PREDATORS,
                forall|j: int|
                    0 <= j < n ==> (#[trigger] bs@[j]).wf() && bs@[j].birth_ms <= w.time_ms,
                t == w.time_ms as int,
                ({
                    let ps = prey_sums_sp(bs@.subrange(0, i as int), t);
                    &&& s_food_perc == ps.food_perception
                    &&& s_poison_perc == ps.poison_perception
                    &&& s_pred_perc == ps.predator_perception
                    &&& s_food_pull == ps.food_pull
                    &&& s_poison_pull == ps.poison_pull
                    &&& s_pred_pull == ps.predator_pull
                    &&& s_speed == ps.speed
                    &&& s_steer == ps.steering
                    &&& s_life == ps.lifespan
                }),
                ({
                    let qs = predator_sums_sp(bs@.subrange(0, i as int), t);
                    &&& q_prey_perc == qs.prey_perception
                    &&& q_prey_pull == qs.prey_pull
                    &&& q_speed == qs.speed
                    &&& q_life == qs.lifespan
                }),
                -(i as int) * TRAIT_BOUND <= s_food_perc <= (i as int) * TRAIT_BOUND,
                -(i as int) * TRAIT_BOUND <= s_poison_perc <= (i as int) * TRAIT_BOUND,
                -(i as int) * TRAIT_BOUND <= s_pred_perc <= (i as int) * TRAIT_BOUND,
                -(i as int) * TRAIT_BOUND <= s_food_pull <= (i as int) * TRAIT_BOUND,
                -(i as int) * TRAIT_BOUND <= s_poison_pull <= (i as int) * TRAIT_BOUND,
                -(i as int) * TRAIT_BOUND <= s_pred_pull <= (i as int) * TRAIT_BOUND,
                -(i as int) * TRAIT_BOUND <= s_speed <= (i as int) * TRAIT_BOUND,
                -(i as int) * TRAIT_BOUND <= s_steer <= (i as int) * TRAIT_BOUND,
                s_life <= (i as int) * 0xffff_ffff_ffff_ffff,
                -(i as int) * TRAIT_BOUND <= q_prey_perc <= (i as int) * TRAIT_BOUND,
                -(i as int) * TRAIT_BOUND <= q_prey_pull <= (i as int) * TRAIT_BOUND,
                -(i as int) * TRAIT_BOUND <= q_speed <= (i as int) * TRAIT_BOUND,
                q_life <= (i as int) * 0xffff_ffff_ffff_ffff,
            decreases n - i,
        {
            let b: Boid = *crate::world::boid_at(bs, i);
            proof {
                assert(bs@.subrange(0, i + 1 as int).drop_last() =~= bs@.subrange(0, i as int));
                assert(bs@.subrange(0, i + 1 as int).last() == bs@[i as int]);
                assert(i + 1 <= 110);
            }
            let life: u64 = w.time_ms - b.birth_ms;
            match b.predator_dna {
                Option::None => {
                    s_food_perc = s_food_perc + b.dna.food_perception_radius;
                    s_poison_perc = s_poison_perc + b.dna.poison_perception_radius;
                    s_pred_perc = s_pred_perc + b.dna.predator_perception_radius;
                    s_food_pull = s_food_pull + b.dna.food_pull;
                    s_poison_pull = s_poison_pull + b.dna.poison_pull;
                    s_pred_pull = s_pred_pull + b.dna.predator_pull;
                    s_speed = s_speed + b.dna.speed;
                    s_steer = s_steer + b.dna.steering_force;
                    s_life = s_life + life as u128;
                },
                Option::Some(p) => {
                    q_prey_perc = q_prey_perc + p.prey_perception;
                    q_prey_pull = q_prey_pull + p.prey_pull;
                    q_speed = q_speed + b.dna.speed;
                    q_life = q_life + life as u128;
                },
            }
            i = i + 1;
        }
        proof {
            assert(bs@.subrange(0, n as int) =~= bs@);
        }
        self.num_boids.push(frac_fx(cb, NUM_BOIDS));
        self.num_predators.push(frac_fx(cp, NUM_PREDATORS));
        self.num_food.push(frac_fx(ccounts.0, NUM_FOOD));
        self.num_poison.push(frac_fx(ccounts.1, NUM_POISON));
        self.food_perception.push(avg_trait(s_food_perc, cb));
        self.poison_perception.push(avg_trait(s_poison_perc, cb));
        self.predator_perception.push(avg_trait(s_pred_perc, cb));
        self.prey_perception.push(avg_trait(q_prey_perc, cp));
        self.food_affinity.push(avg_trait(s_food_pull, cb));
        self.poison_affinity.push(avg_trait(s_poison_pull, cb));
        self.predator_affinity.push(avg_trait(s_pred_pull, cb));
        self.prey_affinity.push(avg_trait(q_prey_pull, cp));
        self.speed.push(avg_trait(s_speed, cb));
        self.predator_speed.push(avg_trait(q_speed, cp));
        self.steering_force.push(avg_trait(s_steer, cb));
        self.avg_lifespan.push(avg_life(s_life, cb));
        self.avg_predator_lifespan.push(avg_life(q_life, cp));
    }
}

/// Divides a lifespan total, in milliseconds, by a population count,
/// clamped into the series' range.
fn avg_life(sum: u128, cnt: usize) -> (r: i64)
    ensures
        r == clamp_sp(avg_or_zero_sp(sum as int, cnt as int), 0, 0x7fff_ffff_ffff_ffff),
{
    if cnt > 0 {
        let q: u128 = sum / (cnt as u128);
        proof {
            vstd::arithmetic::div_mod::lemma_div_pos_is_pos(sum as int, cnt as int);
        }
        if q > 0x7fff_ffff_ffff_ffff {
            0x7fff_ffff_ffff_ffff
        } else {
            q as i64
        }
    } else {
        0
    }
}

} // verus!
