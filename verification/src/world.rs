use vstd::prelude::*;
use crate::boid::health_tick_damage;
use crate::boid::health_tick_damage_sp;
use crate::boid::Boid;
use crate::boid::Dna;
use crate::boid::MutationDeltas;
use crate::boid::PredatorDeltas;
use crate::boid::PredatorDna;
use crate::configs::ACC_BOUND;
use crate::configs::BOID_COLLISION_RADIUS;
use crate::configs::BOID_MAX_HEALTH;
use crate::configs::BOID_NUTRITION;
use crate::configs::BOID_REPLICATE_GATE;
use crate::configs::BOID_REPLICATE_INTERVAL_MS;
use crate::configs::CONSUMABLE_DECAY_MS;
use crate::configs::CONSUMABLE_REPLICATE_GATE;
use crate::configs::CONSUMABLE_REPLICATION_MS;
use crate::configs::CORPSE_POISON_GATE;
use crate::configs::CORPSE_SCATTER_RADIUS;
use crate::configs::DT_MAX_MS;
use crate::configs::FX;
use crate::configs::HEALTH_TICK_MS;
use crate::configs::NUM_BOIDS;
use crate::configs::NUM_FOOD;
use crate::configs::NUM_POISON;
use crate::configs::NUM_PREDATORS;
use crate::configs::POISON_KEEPS_KIND_GATE;
use crate::configs::POS_BOUND;
use crate::configs::PREDATOR_COLLISION_RADIUS;
use crate::configs::PROB_ONE;
use crate::configs::REPLICATION_COOLDOWN_MS;
use crate::configs::REPLICATION_RADIUS_FOOD;
use crate::configs::REPLICATION_RADIUS_POISON;
use crate::configs::REPOPULATE_MS;
use crate::configs::TRAIT_BOUND;
use crate::configs::WORLD_H;
use crate::configs::WORLD_W;
use crate::elements::Consumable;
use crate::elements::ConsumableItem;
use crate::fx::abs_sp;
use crate::fx::add_clamp_i64;
use crate::fx::clamp_sp;
use crate::fx::div_i128;
use crate::fx::div_to_zero;
use crate::fx::lemma_div_to_zero_abs;
use crate::fx::lemma_div_to_zero_bound;
use crate::rng::rand_i64;
use crate::utils::in_world_sp;
use crate::utils::limit_to_world;
use crate::vec2::dist_sq;
use crate::vec2::dist_sq_sp;
use crate::vec2::normalize_sp;
use crate::vec2::normalize_vec2;
use crate::vec2::Vec2Fx;

verus! {

// ------------------------------------------------------------------
// Population counts.
pub open spec fn count_predators(s: Seq<Boid>) -> int
    decreases s.len(),
{
    if s.len() == 0 {
        0
    } else {
        count_predators(s.drop_last()) + if s.last().is_predator() {
            1int
        } else {
            0int
        }
    }
}

pub open spec fn count_boids(s: Seq<Boid>) -> int
    decreases s.len(),
{
    if s.len() == 0 {
        0
    } else {
        count_boids(s.drop_last()) + if s.last().is_predator() {
            0int
        } else {
            1int
        }
    }
}

pub proof fn lemma_counts_bounds(s: Seq<Boid>)
    ensures
        0 <= count_boids(s) <= s.len(),
        0 <= count_predators(s) <= s.len(),
        count_boids(s) + count_predators(s) == s.len(),
    decreases s.len(),
{
    if s.len() > 0 {
        lemma_counts_bounds(s.drop_last());
    }
}

pub proof fn lemma_counts_push(s: Seq<Boid>, b: Boid)
    ensures
        count_boids(s.push(b)) == count_boids(s) + if b.is_predator() {
            0int
        } else {
            1int
        },
        count_predators(s.push(b)) == count_predators(s) + if b.is_predator() {
            1int
        } else {
            0int
        },
{
    assert(s.push(b).drop_last() =~= s);
}

/// Counts are preserved when one element is replaced by another of the
/// same kind.
pub proof fn lemma_counts_update(s: Seq<Boid>, i: int, b: Boid)
    requires
        0 <= i < s.len(),
        b.is_predator() == s[i].is_predator(),
    ensures
        count_boids(s.update(i, b)) == count_boids(s),
        count_predators(s.update(i, b)) == count_predators(s),
    decreases s.len(),
{
    let t = s.update(i, b);
    if i == s.len() - 1 {
        assert(t.drop_last() =~= s.drop_last());
    } else {
        assert(t.drop_last() =~= s.drop_last().update(i, b));
        lemma_counts_update(s.drop_last(), i, b);
    }
}

pub open spec fn count_food(s: Seq<ConsumableItem>) -> int
    decreases s.len(),
{
    if s.len() == 0 {
        0
    } else {
        count_food(s.drop_last()) + if s.last().is_food_sp() {
            1int
        } else {
            0int
        }
    }
}

pub open spec fn count_poison(s: Seq<ConsumableItem>) -> int
    decreases s.len(),
{
    if s.len() == 0 {
        0
    } else {
        count_poison(s.drop_last()) + if s.last().is_food_sp() {
            0int
        } else {
            1int
        }
    }
}

pub proof fn lemma_consumable_counts_bounds(s: Seq<ConsumableItem>)
    ensures
        0 <= count_food(s) <= s.len(),
        0 <= count_poison(s) <= s.len(),
        count_food(s) + count_poison(s) == s.len(),
    decreases s.len(),
{
    if s.len() > 0 {
        lemma_consumable_counts_bounds(s.drop_last());
    }
}

pub proof fn lemma_consumable_counts_push(s: Seq<ConsumableItem>, c: ConsumableItem)
    ensures
        count_food(s.push(c)) == count_food(s) + if c.is_food_sp() {
            1int
        } else {
            0int
        },
        count_poison(s.push(c)) == count_poison(s) + if c.is_food_sp() {
            0int
        } else {
            1int
        },
{
    assert(s.push(c).drop_last() =~= s);
}

// ------------------------------------------------------------------
// The world store.
/// The flat entity store and the scheduler state of one simulation.
pub struct World {
    pub boids: Vec<Boid>,
    pub consumables: Vec<ConsumableItem>,
    pub death_events: Vec<Vec2Fx>,
    pub time_ms: u64,
    pub health_acc_ms: u64,
    pub decay_acc_ms: u64,
    pub replication_acc_ms: u64,
    pub repopulate_acc_ms: u64,
}

impl World {
    /// Every entity is well formed, populations respect their caps, death
    /// events carry representable positions, and no timestamp lies in the
    /// future.
    pub open spec fn wf(self) -> bool {
        &&& forall|i: int|
            0 <= i < self.boids@.len() ==> (#[trigger] self.boids@[i]).wf()
                && self.boids@[i].birth_ms <= self.time_ms
        &&& forall|i: int|
            0 <= i < self.consumables@.len() ==> (#[trigger] self.consumables@[i]).wf()
                && self.consumables@[i].last_replication_ms <= self.time_ms
        &&& forall|i: int|
            0 <= i < self.death_events@.len() ==> abs_sp(
                (#[trigger] self.death_events@[i]).x as int,
            ) <= POS_BOUND && abs_sp(self.death_events@[i].y as int) <= POS_BOUND
        &&& count_boids(self.boids@) <= NUM_BOIDS
        &&& count_predators(self.boids@) <= NUM_PREDATORS
        &&& self.health_acc_ms < HEALTH_TICK_MS
        &&& self.decay_acc_ms < CONSUMABLE_DECAY_MS
        &&& self.replication_acc_ms < CONSUMABLE_REPLICATION_MS
        &&& self.repopulate_acc_ms < REPOPULATE_MS
    }

    /// An empty world at time zero.
    pub fn new() -> (r: World)
        ensures
            r.wf(),
            r.boids@.len() == 0,
            r.consumables@.len() == 0,
            r.death_events@.len() == 0,
            r.time_ms == 0,
    {
        World {
            boids: Vec::new(),
            consumables: Vec::new(),
            death_events: Vec::new(),
            time_ms: 0,
            health_acc_ms: 0,
            decay_acc_ms: 0,
            replication_acc_ms: 0,
            repopulate_acc_ms: 0,
        }
    }
}

// ------------------------------------------------------------------
// Movement integrator.
/// One movement step: normalise `velocity + acceleration` (or keep the old
/// facing when the sum is the zero vector, where the direction is
/// undefined), reset the acceleration, then translate by the velocity
/// scaled by the speed trait, rejecting a translation that leaves the
/// representable range.
pub open spec fn integrate_sp(b: Boid) -> Boid {
    let sx = b.vel.x + b.acc.x;
    let sy = b.vel.y + b.acc.y;
    let v = if sx == 0 && sy == 0 {
        b.vel
    } else {
        let q = normalize_sp(Vec2Fx { x: sx as i64, y: sy as i64 });
        Vec2Fx { x: q.0 as i64, y: q.1 as i64 }
    };
    let px = b.pos.x + div_to_zero(v.x * b.dna.speed, FX as int);
    let py = b.pos.y + div_to_zero(v.y * b.dna.speed, FX as int);
    let pos = if abs_sp(px) <= POS_BOUND && abs_sp(py) <= POS_BOUND {
        Vec2Fx { x: px as i64, y: py as i64 }
    } else {
        b.pos
    };
    Boid { pos, vel: v, acc: Vec2Fx::zero_sp(), ..b }
}

/// The movement step of a single agent.
pub fn integrate_boid(b: &Boid) -> (r: Boid)
    requires
        b.wf(),
    ensures
        r == integrate_sp(*b),
        r.wf(),
{
    let sx: i64 = b.vel.x + b.acc.x;
    let sy: i64 = b.vel.y + b.acc.y;
    let v: Vec2Fx = if sx == 0 && sy == 0 {
        b.vel
    } else {
        normalize_vec2(Vec2Fx { x: sx, y: sy })
    };
    proof {
        assert(abs_sp(v.x * b.dna.speed) <= TRAIT_BOUND * FX && abs_sp(v.y * b.dna.speed)
            <= TRAIT_BOUND * FX) by (nonlinear_arith)
            requires
                abs_sp(v.x as int) <= FX,
                abs_sp(v.y as int) <= FX,
                abs_sp(b.dna.speed as int) <= TRAIT_BOUND,
                FX == 10_000,
                TRAIT_BOUND == 1_000_000_000,
        ;
        lemma_div_to_zero_bound(v.x * b.dna.speed, FX as int, TRAIT_BOUND as int);
        lemma_div_to_zero_bound(v.y * b.dna.speed, FX as int, TRAIT_BOUND as int);
    }
    let dx: i128 = div_i128(v.x as i128 * b.dna.speed as i128, FX as i128);
    let dy: i128 = div_i128(v.y as i128 * b.dna.speed as i128, FX as i128);
    let px: i64 = b.pos.x + dx as i64;
    let py: i64 = b.pos.y + dy as i64;
    let in_range: bool = -POS_BOUND <= px && px <= POS_BOUND && -POS_BOUND <= py && py
        <= POS_BOUND;
    let pos: Vec2Fx = if in_range {
        Vec2Fx { x: px, y: py }
    } else {
        b.pos
    };
    Boid {
        pos,
        vel: v,
        acc: Vec2Fx::zero(),
        health: b.health,
        dna: b.dna,
        predator_dna: b.predator_dna,
        replicate_elapsed_ms: b.replicate_elapsed_ms,
        birth_ms: b.birth_ms,
    }
}

impl World {
    /// Movement pass: every agent takes one movement step; nothing else in
    /// the world changes.
    pub fn update_boid_transform(&mut self)
        requires
            old(self).wf(),
        ensures
            final(self).wf(),
            final(self).boids@.len() == old(self).boids@.len(),
            forall|i: int|
                0 <= i < old(self).boids@.len() ==> final(self).boids@[i] == integrate_sp(
                    #[trigger] old(self).boids@[i],
                ),
            final(self).consumables == old(self).consumables,
            final(self).death_events == old(self).death_events,
            final(self).time_ms == old(self).time_ms,
            final(self).health_acc_ms == old(self).health_acc_ms,
            final(self).decay_acc_ms == old(self).decay_acc_ms,
            final(self).replication_acc_ms == old(self).replication_acc_ms,
            final(self).repopulate_acc_ms == old(self).repopulate_acc_ms,
    {
        let ghost orig = self.boids@;
        let n: usize = self.boids.len();
        let mut i: usize = 0;
        while i < n
            invariant
                i <= n,
                n == self.boids@.len(),
                n == orig.len(),
                forall|j: int| 0 <= j < n ==> (#[trigger] orig[j]).wf(),
                forall|j: int|
                    0 <= j < i ==> #[trigger] self.boids@[j] == integrate_sp(orig[j])
                        && self.boids@[j].wf(),
                forall|j: int| i <= j < n ==> #[trigger] self.boids@[j] == orig[j],
                self.consumables == old(self).consumables,
                self.death_events == old(self).death_events,
                self.time_ms == old(self).time_ms,
                self.health_acc_ms == old(self).health_acc_ms,
                self.decay_acc_ms == old(self).decay_acc_ms,
                self.replication_acc_ms == old(self).replication_acc_ms,
                self.repopulate_acc_ms == old(self).repopulate_acc_ms,
            decreases n - i,
        {
            let b: Boid = *crate::world::boid_at(&self.boids, i);
            let nb: Boid = integrate_boid(&b);
            let m: &mut Boid = vstd::std_specs::vec::vec_index_mut(&mut self.boids, i);
            *m = nb;
            i = i + 1;
        }
        proof {
            assert forall|k: int| 0 <= k < orig.len() implies (#[trigger] orig[k]).is_predator()
                == self.boids@[k].is_predator() by {
                assert(self.boids@[k] == integrate_sp(orig[k]));
            }
            lemma_kind_preserving_counts(orig, self.boids@);
            assert forall|k: int|
                0 <= k < self.boids@.len() implies (#[trigger] self.boids@[k]).wf()
                && self.boids@[k].birth_ms <= self.time_ms by {
                assert(self.boids@[k] == integrate_sp(orig[k]));
                assert(orig[k].birth_ms <= old(self).time_ms);
            }
        }
    }
}

/// Reads one agent by index.
pub fn boid_at(v: &Vec<Boid>, i: usize) -> (r: &Boid)
    requires
        i < v@.len(),
    ensures
        *r == v@[i as int],
{
    vstd::std_specs::vec::vec_index(v, i)
}

// ------------------------------------------------------------------
// Metabolism: health tick, death, corpse reseed.
/// One health tick: the speed-scaled damage is charged and health clamped
/// into `[0, BOID_MAX_HEALTH]`.
pub open spec fn health_tick_sp(b: Boid) -> Boid {
    Boid {
        health: clamp_sp(b.health - health_tick_damage_sp(b.dna.speed as int), 0, BOID_MAX_HEALTH as int) as i64,
        ..b
    }
}

impl World {
    /// Health-tick pass: every agent pays its metabolic cost; health stays
    /// within `[0, BOID_MAX_HEALTH]`.
    pub fn boid_health_tick(&mut self)
        requires
            old(self).wf(),
        ensures
            final(self).wf(),
            final(self).boids@.len() == old(self).boids@.len(),
            forall|i: int|
                0 <= i < old(self).boids@.len() ==> final(self).boids@[i] == health_tick_sp(
                    #[trigger] old(self).boids@[i],
                ),
            final(self).consumables == old(self).consumables,
            final(self).death_events == old(self).death_events,
            final(self).time_ms == old(self).time_ms,
            final(self).health_acc_ms == old(self).health_acc_ms,
            final(self).decay_acc_ms == old(self).decay_acc_ms,
            final(self).replication_acc_ms == old(self).replication_acc_ms,
            final(self).repopulate_acc_ms == old(self).repopulate_acc_ms,
    {
        let ghost orig = self.boids@;
        let n: usize = self.boids.len();
        let mut i: usize = 0;
        while i < n
            invariant
                i <= n,
                n == self.boids@.len(),
                n == orig.len(),
                forall|j: int| 0 <= j < n ==> (#[trigger] orig[j]).wf(),
                forall|j: int|
                    0 <= j < i ==> #[trigger] self.boids@[j] == health_tick_sp(orig[j])
                        && self.boids@[j].wf(),
                forall|j: int| i <= j < n ==> #[trigger] self.boids@[j] == orig[j],
                self.consumables == old(self).consumables,
                self.death_events == old(self).death_events,
                self.time_ms == old(self).time_ms,
                self.health_acc_ms == old(self).health_acc_ms,
                self.decay_acc_ms == old(self).decay_acc_ms,
                self.replication_acc_ms == old(self).replication_acc_ms,
                self.repopulate_acc_ms == old(self).repopulate_acc_ms,
            decreases n - i,
        {
            let b: Boid = *boid_at(&self.boids, i);
            let damage: i64 = health_tick_damage(b.dna.speed);
            let nh: i64 = if b.health >= damage {
                b.health - damage
            } else {
                0
            };
            let nb: Boid = Boid { health: nh, ..b };
            proof {
                assert(nb == health_tick_sp(orig[i as int]));
            }
            let m: &mut Boid = vstd::std_specs::vec::vec_index_mut(&mut self.boids, i);
            *m = nb;
            i = i + 1;
        }
        proof {
            assert forall|k: int| 0 <= k < orig.len() implies (#[trigger] orig[k]).is_predator()
                == self.boids@[k].is_predator() by {
                assert(self.boids@[k] == health_tick_sp(orig[k]));
            }
            lemma_kind_preserving_counts(orig, self.boids@);
            assert forall|k: int|
                0 <= k < self.boids@.len() implies (#[trigger] self.boids@[k]).wf()
                && self.boids@[k].birth_ms <= self.time_ms by {
                assert(self.boids@[k] == health_tick_sp(orig[k]));
                assert(orig[k].birth_ms <= old(self).time_ms);
            }
        }
    }
}

/// The agents that survive a despawn check, in order.
pub open spec fn alive_sp(s: Seq<Boid>) -> Seq<Boid>
    decreases s.len(),
{
    if s.len() == 0 {
        Seq::empty()
    } else if s.last().health > 0 {
        alive_sp(s.drop_last()).push(s.last())
    } else {
        alive_sp(s.drop_last())
    }
}

/// The last positions of the agents a despawn check removes, in order.
pub open spec fn dead_positions_sp(s: Seq<Boid>) -> Seq<Vec2Fx>
    decreases s.len(),
{
    if s.len() == 0 {
        Seq::empty()
    } else if s.last().health <= 0 {
        dead_positions_sp(s.drop_last()).push(s.last().pos)
    } else {
        dead_positions_sp(s.drop_last())
    }
}

pub proof fn lemma_alive_props(s: Seq<Boid>, t: u64)
    requires
        forall|j: int| 0 <= j < s.len() ==> (#[trigger] s[j]).wf() && s[j].birth_ms <= t,
    ensures
        count_boids(alive_sp(s)) <= count_boids(s),
        count_predators(alive_sp(s)) <= count_predators(s),
        alive_sp(s).len() <= s.len(),
        forall|i: int|
            0 <= i < alive_sp(s).len() ==> (#[trigger] alive_sp(s)[i]).wf()
                && alive_sp(s)[i].birth_ms <= t && alive_sp(s)[i].health > 0,
        dead_positions_sp(s).len() == s.len() - alive_sp(s).len(),
        forall|i: int|
            0 <= i < dead_positions_sp(s).len() ==> abs_sp(
                (#[trigger] dead_positions_sp(s)[i]).x as int,
            ) <= POS_BOUND && abs_sp(dead_positions_sp(s)[i].y as int) <= POS_BOUND,
    decreases s.len(),
{
    if s.len() > 0 {
        lemma_alive_props(s.drop_last(), t);
        lemma_counts_bounds(s.drop_last());
        if s.last().health > 0 {
            lemma_counts_push(alive_sp(s.drop_last()), s.last());
        }
    }
}

/// `c` sits at `ev` displaced by `(ox, oy)`, both within `radius`, and
/// clamped into the arena.
pub open spec fn scattered_near_sp(c: ConsumableItem, ev: Vec2Fx, ox: int, oy: int, radius: int) -> bool {
    &&& abs_sp(ox) <= radius
    &&& abs_sp(oy) <= radius
    &&& (c.pos.x as int, c.pos.y as int) == crate::utils::limit_to_world_sp(ev.x + ox, ev.y + oy)
}

/// A corpse-reseed item: scattered within the corpse radius of one of
/// the death events.
pub open spec fn scattered_from_sp(c: ConsumableItem, events: Seq<Vec2Fx>) -> bool {
    exists|e: int, ox: int, oy: int|
        0 <= e < events.len() && #[trigger] scattered_near_sp(
            c,
            events[e],
            ox,
            oy,
            CORPSE_SCATTER_RADIUS as int,
        )
}

/// The kind-specific radius within which a consumable replicates.
pub open spec fn replication_radius_sp(p: ConsumableItem) -> int {
    if p.is_food_sp() {
        REPLICATION_RADIUS_FOOD as int
    } else {
        REPLICATION_RADIUS_POISON as int
    }
}

/// A replication child: spawned near a parent whose cooldown had elapsed
/// at time `now`, within the parent kind's replication radius; a food
/// parent begets only food.
pub open spec fn replicated_from_sp(c: ConsumableItem, parents: Seq<ConsumableItem>, now: u64) -> bool {
    exists|j: int, ox: int, oy: int|
        0 <= j < parents.len() && now - parents[j].last_replication_ms
            >= REPLICATION_COOLDOWN_MS && (parents[j].is_food_sp() ==> c.is_food_sp())
            && #[trigger] scattered_near_sp(
            c,
            parents[j].pos,
            ox,
            oy,
            replication_radius_sp(parents[j]),
        )
}

impl World {
    /// Death pass: agents whose health has reached zero leave the world,
    /// each raising a death event at its last position.
    pub fn despawn_boids(&mut self)
        requires
            old(self).wf(),
        ensures
            final(self).wf(),
            final(self).boids@ == alive_sp(old(self).boids@),
            final(self).death_events@ == old(self).death_events@ + dead_positions_sp(
                old(self).boids@,
            ),
            forall|i: int|
                0 <= i < final(self).boids@.len() ==> (#[trigger] final(self).boids@[i]).health
                    > 0,
            final(self).consumables == old(self).consumables,
            final(self).time_ms == old(self).time_ms,
            final(self).health_acc_ms == old(self).health_acc_ms,
            final(self).decay_acc_ms == old(self).decay_acc_ms,
            final(self).replication_acc_ms == old(self).replication_acc_ms,
            final(self).repopulate_acc_ms == old(self).repopulate_acc_ms,
    {
        let ghost orig = self.boids@;
        let n: usize = self.boids.len();
        let mut kept: Vec<Boid> = Vec::new();
        let mut i: usize = 0;
        while i < n
            invariant
                i <= n,
                n == self.boids@.len(),
                self.boids@ == orig,
                forall|j: int| 0 <= j < n ==> (#[trigger] orig[j]).wf(),
                kept@ == alive_sp(orig.subrange(0, i as int)),
                self.death_events@ == old(self).death_events@ + dead_positions_sp(
                    orig.subrange(0, i as int),
                ),
                self.consumables == old(self).consumables,
                self.time_ms == old(self).time_ms,
                self.health_acc_ms == old(self).health_acc_ms,
                self.decay_acc_ms == old(self).decay_acc_ms,
                self.replication_acc_ms == old(self).replication_acc_ms,
                self.repopulate_acc_ms == old(self).repopulate_acc_ms,
            decreases n - i,
        {
            let b: Boid = *boid_at(&self.boids, i);
            proof {
                assert(orig.subrange(0, i + 1 as int).drop_last() =~= orig.subrange(0, i as int));
                assert(orig.subrange(0, i + 1 as int).last() == orig[i as int]);
            }
            if b.health > 0 {
                kept.push(b);
            } else {
                self.death_events.push(b.pos);
            }
            i = i + 1;
        }
        proof {
            assert(orig.subrange(0, n as int) =~= orig);
            lemma_alive_props(orig, self.time_ms);
        }
        self.boids = kept;
        proof {
            lemma_counts_bounds(orig);
        }
    }

    /// Corpse-reseed pass: every death event scatters two to four fresh
    /// consumables near the death position, each independently poison with
    /// a small probability; the event queue is drained.
    pub fn handle_boid_despawn_events(&mut self)
        requires
            old(self).wf(),
        ensures
            final(self).wf(),
            final(self).death_events@.len() == 0,
            final(self).boids == old(self).boids,
            final(self).consumables@.len() >= old(self).consumables@.len() + 2 * old(
                self,
            ).death_events@.len(),
            final(self).consumables@.len() <= old(self).consumables@.len() + 4 * old(
                self,
            ).death_events@.len(),
            forall|i: int|
                0 <= i < old(self).consumables@.len() ==> #[trigger] final(self).consumables@[i]
                    == old(self).consumables@[i],
            forall|i: int|
                old(self).consumables@.len() <= i < final(self).consumables@.len()
                    ==> (#[trigger] final(self).consumables@[i]).wf() && in_world_sp(
                    final(self).consumables@[i].pos,
                ) && (final(self).consumables@[i].consumable.0
                    == crate::configs::FOOD_NUTRITION || final(self).consumables@[i].consumable.0
                    == crate::configs::POISON_DAMAGE) && scattered_from_sp(
                    final(self).consumables@[i],
                    old(self).death_events@,
                ),
            final(self).time_ms == old(self).time_ms,
            final(self).health_acc_ms == old(self).health_acc_ms,
            final(self).decay_acc_ms == old(self).decay_acc_ms,
            final(self).replication_acc_ms == old(self).replication_acc_ms,
            final(self).repopulate_acc_ms == old(self).repopulate_acc_ms,
    {
        let ghost orig_cons = self.consumables@;
        let ne: usize = self.death_events.len();
        let mut e: usize = 0;
        while e < ne
            invariant
                e <= ne,
                old(self).wf(),
                ne == self.death_events@.len(),
                self.death_events@ == old(self).death_events@,
                self.boids == old(self).boids,
                orig_cons == old(self).consumables@,
                self.consumables@.len() >= orig_cons.len() + 2 * e,
                self.consumables@.len() <= orig_cons.len() + 4 * e,
                forall|i: int|
                    0 <= i < orig_cons.len() ==> #[trigger] self.consumables@[i] == orig_cons[i],
                forall|i: int|
                    orig_cons.len() <= i < self.consumables@.len()
                        ==> (#[trigger] self.consumables@[i]).wf() && in_world_sp(
                        self.consumables@[i].pos,
                    ) && self.consumables@[i].last_replication_ms <= self.time_ms && (
                    self.consumables@[i].consumable.0 == crate::configs::FOOD_NUTRITION
                        || self.consumables@[i].consumable.0 == crate::configs::POISON_DAMAGE)
                        && scattered_from_sp(self.consumables@[i], old(self).death_events@),
                self.time_ms == old(self).time_ms,
                self.health_acc_ms == old(self).health_acc_ms,
                self.decay_acc_ms == old(self).decay_acc_ms,
                self.replication_acc_ms == old(self).replication_acc_ms,
                self.repopulate_acc_ms == old(self).repopulate_acc_ms,
            decreases ne - e,
        {
            let ev: Vec2Fx = *vstd::std_specs::vec::vec_index(&self.death_events, e);
            proof {
                assert(abs_sp(ev.x as int) <= POS_BOUND && abs_sp(ev.y as int) <= POS_BOUND);
            }
            let count: i64 = rand_i64(2, 5);
            let mut k: i64 = 0;
            let ghost base = self.consumables@.len();
            while k < count
                invariant
                    0 <= k <= count,
                    2 <= count <= 4,
                    e < old(self).death_events@.len(),
                    ev == old(self).death_events@[e as int],
                    abs_sp(ev.x as int) <= POS_BOUND,
                    abs_sp(ev.y as int) <= POS_BOUND,
                    old(self).wf(),
                    self.death_events@ == old(self).death_events@,
                    self.boids == old(self).boids,
                    orig_cons == old(self).consumables@,
                    self.consumables@.len() == base + k,
                    base >= orig_cons.len(),
                    forall|i: int|
                        0 <= i < orig_cons.len() ==> #[trigger] self.consumables@[i]
                            == orig_cons[i],
                    forall|i: int|
                        orig_cons.len() <= i < self.consumables@.len()
                            ==> (#[trigger] self.consumables@[i]).wf() && in_world_sp(
                            self.consumables@[i].pos,
                        ) && self.consumables@[i].last_replication_ms <= self.time_ms && (
                        self.consumables@[i].consumable.0 == crate::configs::FOOD_NUTRITION
                            || self.consumables@[i].consumable.0
                            == crate::configs::POISON_DAMAGE) && scattered_from_sp(
                            self.consumables@[i],
                            old(self).death_events@,
                        ),
                    self.time_ms == old(self).time_ms,
                    self.health_acc_ms == old(self).health_acc_ms,
                    self.decay_acc_ms == old(self).decay_acc_ms,
                    self.replication_acc_ms == old(self).replication_acc_ms,
                    self.repopulate_acc_ms == old(self).repopulate_acc_ms,
                decreases count - k,
            {
                let ox: i64 = rand_i64(-CORPSE_SCATTER_RADIUS, CORPSE_SCATTER_RADIUS);
                let oy: i64 = rand_i64(-CORPSE_SCATTER_RADIUS, CORPSE_SCATTER_RADIUS);
                let (x, y): (i64, i64) = limit_to_world((ev.x + ox, ev.y + oy));
                let pos = Vec2Fx { x, y };
                let gate: i64 = rand_i64(0, PROB_ONE);
                let item: ConsumableItem = if gate >= CORPSE_POISON_GATE {
                    ConsumableItem::new_poison(pos, self.time_ms)
                } else {
                    ConsumableItem::new_food(pos, self.time_ms)
                };
                proof {
                    assert(scattered_near_sp(
                        item,
                        old(self).death_events@[e as int],
                        ox as int,
                        oy as int,
                        CORPSE_SCATTER_RADIUS as int,
                    ));
                    assert(scattered_from_sp(item, old(self).death_events@));
                }
                self.consumables.push(item);
                k = k + 1;
            }
            e = e + 1;
        }
        self.death_events.clear();
    }
}

// ------------------------------------------------------------------
// Steering engine.
/// Saturating accumulation of one force contribution into an
/// acceleration.
pub open spec fn accum_sp(acc: Vec2Fx, cx: int, cy: int) -> Vec2Fx {
    Vec2Fx {
        x: clamp_sp(acc.x + cx, -ACC_BOUND as int, ACC_BOUND as int) as i64,
        y: clamp_sp(acc.y + cy, -ACC_BOUND as int, ACC_BOUND as int) as i64,
    }
}

/// One force component scaled by a fixed-point weight.
pub open spec fn force_term_sp(d: int, w: int) -> int {
    div_to_zero(d * w, FX as int)
}

/// Adds `force * w / FX` into `acc`, saturating at the acceleration
/// bound.
pub fn apply_force(acc: Vec2Fx, force: Vec2Fx, w: i64) -> (r: Vec2Fx)
    requires
        abs_sp(acc.x as int) <= ACC_BOUND,
        abs_sp(acc.y as int) <= ACC_BOUND,
        abs_sp(force.x as int) <= 2 * POS_BOUND + FX,
        abs_sp(force.y as int) <= 2 * POS_BOUND + FX,
        abs_sp(w as int) <= 100_000_000_000_000,
    ensures
        r == accum_sp(acc, force_term_sp(force.x as int, w as int), force_term_sp(force.y as int, w as int)),
        abs_sp(r.x as int) <= ACC_BOUND,
        abs_sp(r.y as int) <= ACC_BOUND,
{
    proof {
        assert(abs_sp(force.x * w) <= 0x1_0000_0000_0000_0000_0000_0000 && abs_sp(force.y * w)
            <= 0x1_0000_0000_0000_0000_0000_0000) by (nonlinear_arith)
            requires
                abs_sp(force.x as int) <= 2 * POS_BOUND + FX,
                abs_sp(force.y as int) <= 2 * POS_BOUND + FX,
                abs_sp(w as int) <= 100_000_000_000_000,
                POS_BOUND == 100_000_000,
                FX == 10_000,
        ;
        lemma_div_to_zero_abs(force.x * w, FX as int);
        lemma_div_to_zero_abs(force.y * w, FX as int);
    }
    let cx: i128 = div_i128(force.x as i128 * w as i128, FX as i128);
    let cy: i128 = div_i128(force.y as i128 * w as i128, FX as i128);
    let rx: i64 = add_clamp_i64(acc.x, cx, -ACC_BOUND, ACC_BOUND);
    let ry: i64 = add_clamp_i64(acc.y, cy, -ACC_BOUND, ACC_BOUND);
    Vec2Fx { x: rx, y: ry }
}

/// The channel weight `|steering_force| * pull / FX`.
pub open spec fn channel_w_sp(sf: int, pull: int) -> int {
    div_to_zero(abs_sp(sf) * pull, FX as int)
}

pub fn channel_w(sf: i64, pull: i64) -> (r: i64)
    requires
        abs_sp(sf as int) <= TRAIT_BOUND,
        abs_sp(pull as int) <= TRAIT_BOUND,
    ensures
        r == channel_w_sp(sf as int, pull as int),
        abs_sp(r as int) <= 100_000_000_000_000,
{
    let sfa: i64 = if sf >= 0 {
        sf
    } else {
        -sf
    };
    proof {
        assert(abs_sp(sfa * pull) <= TRAIT_BOUND * TRAIT_BOUND) by (nonlinear_arith)
            requires
                0 <= sfa <= TRAIT_BOUND,
                abs_sp(pull as int) <= TRAIT_BOUND,
        ;
        assert(TRAIT_BOUND * TRAIT_BOUND == 100_000_000_000_000 * FX) by (nonlinear_arith)
            requires
                TRAIT_BOUND == 1_000_000_000,
                FX == 10_000,
        ;
        lemma_div_to_zero_bound(sfa * pull, FX as int, 100_000_000_000_000);
    }
    let r: i128 = div_i128(sfa as i128 * pull as i128, FX as i128);
    r as i64
}

/// One steering channel: when a target was found, the corrected
/// displacement toward it, weighted by the channel weight, joins the
/// accumulated acceleration.
pub open spec fn channel_sp(
    acc: Vec2Fx,
    target: Option<Vec2Fx>,
    pos: Vec2Fx,
    vel: Vec2Fx,
    sf: int,
    pull: int,
) -> Vec2Fx {
    match target {
        Option::None => acc,
        Option::Some(t) => {
            let f = crate::utils::steering_force_sp(t, pos, vel);
            let w = channel_w_sp(sf, pull);
            accum_sp(acc, force_term_sp(f.0, w), force_term_sp(f.1, w))
        },
    }
}

pub fn apply_channel(
    acc: Vec2Fx,
    target: Option<Vec2Fx>,
    pos: Vec2Fx,
    vel: Vec2Fx,
    sf: i64,
    pull: i64,
) -> (r: Vec2Fx)
    requires
        abs_sp(acc.x as int) <= ACC_BOUND,
        abs_sp(acc.y as int) <= ACC_BOUND,
        match target {
            Option::Some(t) => abs_sp(t.x as int) <= POS_BOUND && abs_sp(t.y as int) <= POS_BOUND,
            Option::None => true,
        },
        abs_sp(pos.x as int) <= POS_BOUND,
        abs_sp(pos.y as int) <= POS_BOUND,
        abs_sp(vel.x as int) <= FX,
        abs_sp(vel.y as int) <= FX,
        abs_sp(sf as int) <= TRAIT_BOUND,
        abs_sp(pull as int) <= TRAIT_BOUND,
    ensures
        r == channel_sp(acc, target, pos, vel, sf as int, pull as int),
        abs_sp(r.x as int) <= ACC_BOUND,
        abs_sp(r.y as int) <= ACC_BOUND,
{
    match target {
        Option::None => acc,
        Option::Some(t) => {
            let f: Vec2Fx = crate::utils::get_steering_force(t, pos, vel);
            let w: i64 = channel_w(sf, pull);
            apply_force(acc, f, w)
        },
    }
}

/// The nearest-target search over positions in order: a candidate at most
/// as far as the best so far, and within the perception radius, replaces
/// it, so the last of equally near candidates wins.
pub open spec fn closest_fold_sp(origin: Vec2Fx, r_sq: int, ps: Seq<Vec2Fx>, k: int) -> (
    int,
    Option<Vec2Fx>,
)
    decreases k,
{
    if k <= 0 {
        (0x7fff_ffff_ffff_ffffint, Option::None)
    } else {
        let r = closest_fold_sp(origin, r_sq, ps, k - 1);
        let d = dist_sq_sp(ps[k - 1], origin);
        if d <= r.0 && d <= r_sq {
            (d, Option::Some(ps[k - 1]))
        } else {
            r
        }
    }
}

pub open spec fn closest_sp(origin: Vec2Fx, r_sq: int, ps: Seq<Vec2Fx>) -> Option<Vec2Fx> {
    closest_fold_sp(origin, r_sq, ps, ps.len() as int).1
}

pub proof fn lemma_closest_fold_props(origin: Vec2Fx, r_sq: int, ps: Seq<Vec2Fx>, k: int, b: int)
    requires
        0 <= k <= ps.len(),
        forall|j: int|
            0 <= j < ps.len() ==> abs_sp((#[trigger] ps[j]).x as int) <= b && abs_sp(
                ps[j].y as int,
            ) <= b,
    ensures
        ({
            let r = closest_fold_sp(origin, r_sq, ps, k);
            match r.1 {
                Option::Some(t) => abs_sp(t.x as int) <= b && abs_sp(t.y as int) <= b,
                Option::None => true,
            }
        }),
    decreases k,
{
    if k > 0 {
        lemma_closest_fold_props(origin, r_sq, ps, k - 1, b);
    }
}

/// The nearest position within `range` of `origin`, by squared distance,
/// the last of ties winning.
pub fn get_closest_item(origin: Vec2Fx, range: i64, items: &Vec<Vec2Fx>) -> (r: Option<Vec2Fx>)
    requires
        abs_sp(origin.x as int) <= POS_BOUND,
        abs_sp(origin.y as int) <= POS_BOUND,
        0 <= range <= TRAIT_BOUND,
        forall|j: int|
            0 <= j < items@.len() ==> abs_sp((#[trigger] items@[j]).x as int) <= POS_BOUND
                && abs_sp(items@[j].y as int) <= POS_BOUND,
    ensures
        r == closest_sp(origin, range * range, items@),
{
    proof {
        assert(0 <= range * range <= 0x7fff_ffff_ffff_ffff) by (nonlinear_arith)
            requires
                0 <= range <= TRAIT_BOUND,
                TRAIT_BOUND == 1_000_000_000,
        ;
    }
    let r_sq: i64 = range * range;
    let n: usize = items.len();
    let mut best_d: i64 = 0x7fff_ffff_ffff_ffff;
    let mut best: Option<Vec2Fx> = None;
    let mut k: usize = 0;
    while k < n
        invariant
            k <= n,
            n == items@.len(),
            abs_sp(origin.x as int) <= POS_BOUND,
            abs_sp(origin.y as int) <= POS_BOUND,
            r_sq == range * range,
            forall|j: int|
                0 <= j < items@.len() ==> abs_sp((#[trigger] items@[j]).x as int) <= POS_BOUND
                    && abs_sp(items@[j].y as int) <= POS_BOUND,
            ({
                let r = closest_fold_sp(origin, r_sq as int, items@, k as int);
                best_d == r.0 && best == r.1
            }),
        decreases n - k,
    {
        let p: Vec2Fx = *vstd::std_specs::vec::vec_index(items, k);
        let d: i64 = dist_sq(p, origin);
        if d <= best_d && d <= r_sq {
            best_d = d;
            best = Some(p);
        }
        k = k + 1;
    }
    best
}

/// Positions of the food items, in store order.
pub open spec fn food_positions_sp(cs: Seq<ConsumableItem>) -> Seq<Vec2Fx>
    decreases cs.len(),
{
    if cs.len() == 0 {
        Seq::empty()
    } else if cs.last().is_food_sp() {
        food_positions_sp(cs.drop_last()).push(cs.last().pos)
    } else {
        food_positions_sp(cs.drop_last())
    }
}

/// Positions of the poison items, in store order.
pub open spec fn poison_positions_sp(cs: Seq<ConsumableItem>) -> Seq<Vec2Fx>
    decreases cs.len(),
{
    if cs.len() == 0 {
        Seq::empty()
    } else if !cs.last().is_food_sp() {
        poison_positions_sp(cs.drop_last()).push(cs.last().pos)
    } else {
        poison_positions_sp(cs.drop_last())
    }
}

/// Positions of the predators, in store order.
pub open spec fn predator_positions_sp(bs: Seq<Boid>) -> Seq<Vec2Fx>
    decreases bs.len(),
{
    if bs.len() == 0 {
        Seq::empty()
    } else if bs.last().is_predator() {
        predator_positions_sp(bs.drop_last()).push(bs.last().pos)
    } else {
        predator_positions_sp(bs.drop_last())
    }
}

/// Positions of the non-predator boids, in store order.
pub open spec fn boid_positions_sp(bs: Seq<Boid>) -> Seq<Vec2Fx>
    decreases bs.len(),
{
    if bs.len() == 0 {
        Seq::empty()
    } else if !bs.last().is_predator() {
        boid_positions_sp(bs.drop_last()).push(bs.last().pos)
    } else {
        boid_positions_sp(bs.drop_last())
    }
}

/// Positions of every agent, in store order.
pub open spec fn all_positions_sp(bs: Seq<Boid>) -> Seq<Vec2Fx>
    decreases bs.len(),
{
    if bs.len() == 0 {
        Seq::empty()
    } else {
        all_positions_sp(bs.drop_last()).push(bs.last().pos)
    }
}

/// One boid's steering step: the three perception channels, food, poison
/// and predator, each seek the nearest target within the matching radius
/// and weigh the corrected displacement by the genome's pull.
pub open spec fn steer_step_sp(
    b: Boid,
    foods: Seq<Vec2Fx>,
    poisons: Seq<Vec2Fx>,
    preds: Seq<Vec2Fx>,
) -> Boid {
    if b.is_predator() {
        b
    } else {
        let a1 = channel_sp(
            b.acc,
            closest_sp(
                b.pos,
                b.dna.food_perception_radius * b.dna.food_perception_radius,
                foods,
            ),
            b.pos,
            b.vel,
            b.dna.steering_force as int,
            b.dna.food_pull as int,
        );
        let a2 = channel_sp(
            a1,
            closest_sp(
                b.pos,
                b.dna.poison_perception_radius * b.dna.poison_perception_radius,
                poisons,
            ),
            b.pos,
            b.vel,
            b.dna.steering_force as int,
            b.dna.poison_pull as int,
        );
        let a3 = channel_sp(
            a2,
            closest_sp(
                b.pos,
                b.dna.predator_perception_radius * b.dna.predator_perception_radius,
                preds,
            ),
            b.pos,
            b.vel,
            b.dna.steering_force as int,
            b.dna.predator_pull as int,
        );
        Boid { acc: a3, ..b }
    }
}

/// One predator's steering step: the prey channel.
pub open spec fn predator_steer_step_sp(b: Boid, prey: Seq<Vec2Fx>) -> Boid {
    match b.predator_dna {
        Option::None => b,
        Option::Some(p) => {
            let a = channel_sp(
                b.acc,
                closest_sp(b.pos, p.prey_perception * p.prey_perception, prey),
                b.pos,
                b.vel,
                b.dna.steering_force as int,
                p.prey_pull as int,
            );
            Boid { acc: a, ..b }
        },
    }
}

/// One boid's boundary step: at or beyond the arena rectangle a weak
/// corrective force steers it toward the origin.
pub open spec fn boundary_step_sp(b: Boid) -> Boid {
    if b.pos.x <= -WORLD_W || b.pos.x >= WORLD_W || b.pos.y <= -WORLD_H || b.pos.y >= WORLD_H {
        let f = crate::utils::steering_force_sp(Vec2Fx::zero_sp(), b.pos, b.vel);
        Boid {
            acc: accum_sp(
                b.acc,
                force_term_sp(f.0, crate::configs::BOUNDARY_FORCE_SCALE as int),
                force_term_sp(f.1, crate::configs::BOUNDARY_FORCE_SCALE as int),
            ),
            ..b
        }
    } else {
        b
    }
}

/// One boid's separation step: every other agent strictly within the
/// separation radius contributes a small repulsion.
pub open spec fn sep_fold_sp(ps: Seq<Vec2Fx>, me: Vec2Fx, vel: Vec2Fx, acc: Vec2Fx, k: int) -> Vec2Fx
    decreases k,
{
    if k <= 0 {
        acc
    } else {
        let a = sep_fold_sp(ps, me, vel, acc, k - 1);
        let d = dist_sq_sp(ps[k - 1], me);
        if d != 0 && d <= crate::configs::SEPARATION_DIST_SQ {
            let f = crate::utils::steering_force_sp(ps[k - 1], me, vel);
            accum_sp(
                a,
                force_term_sp(f.0, crate::configs::SEPARATION_FORCE_SCALE as int),
                force_term_sp(f.1, crate::configs::SEPARATION_FORCE_SCALE as int),
            )
        } else {
            a
        }
    }
}

pub open spec fn sep_step_sp(b: Boid, ps: Seq<Vec2Fx>) -> Boid {
    Boid { acc: sep_fold_sp(ps, b.pos, b.vel, b.acc, ps.len() as int), ..b }
}

/// Collects the positions of the food items.
pub fn food_positions(cs: &Vec<ConsumableItem>) -> (r: Vec<Vec2Fx>)
    requires
        forall|k: int| 0 <= k < cs@.len() ==> (#[trigger] cs@[k]).wf(),
    ensures
        r@ == food_positions_sp(cs@),
        forall|k: int|
            0 <= k < r@.len() ==> abs_sp((#[trigger] r@[k]).x as int) <= POS_BOUND && abs_sp(
                r@[k].y as int,
            ) <= POS_BOUND,
{
    let n: usize = cs.len();
    let mut r: Vec<Vec2Fx> = Vec::new();
    let mut i: usize = 0;
    while i < n
        invariant
            i <= n,
            n == cs@.len(),
            forall|k: int| 0 <= k < cs@.len() ==> (#[trigger] cs@[k]).wf(),
            r@ == food_positions_sp(cs@.subrange(0, i as int)),
            forall|k: int|
                0 <= k < r@.len() ==> abs_sp((#[trigger] r@[k]).x as int) <= POS_BOUND && abs_sp(
                    r@[k].y as int,
                ) <= POS_BOUND,
        decreases n - i,
    {
        let c: ConsumableItem = *consumable_at(cs, i);
        proof {
            assert(cs@.subrange(0, i + 1 as int).drop_last() =~= cs@.subrange(0, i as int));
            assert(cs@.subrange(0, i + 1 as int).last() == cs@[i as int]);
        }
        if c.consumable.is_food() {
            r.push(c.pos);
        }
        i = i + 1;
    }
    proof {
        assert(cs@.subrange(0, n as int) =~= cs@);
    }
    r
}

/// Collects the positions of the poison items.
pub fn poison_positions(cs: &Vec<ConsumableItem>) -> (r: Vec<Vec2Fx>)
    requires
        forall|k: int| 0 <= k < cs@.len() ==> (#[trigger] cs@[k]).wf(),
    ensures
        r@ == poison_positions_sp(cs@),
        forall|k: int|
            0 <= k < r@.len() ==> abs_sp((#[trigger] r@[k]).x as int) <= POS_BOUND && abs_sp(
                r@[k].y as int,
            ) <= POS_BOUND,
{
    let n: usize = cs.len();
    let mut r: Vec<Vec2Fx> = Vec::new();
    let mut i: usize = 0;
    while i < n
        invariant
            i <= n,
            n == cs@.len(),
            forall|k: int| 0 <= k < cs@.len() ==> (#[trigger] cs@[k]).wf(),
            r@ == poison_positions_sp(cs@.subrange(0, i as int)),
            forall|k: int|
                0 <= k < r@.len() ==> abs_sp((#[trigger] r@[k]).x as int) <= POS_BOUND && abs_sp(
                    r@[k].y as int,
                ) <= POS_BOUND,
        decreases n - i,
    {
        let c: ConsumableItem = *consumable_at(cs, i);
        proof {
            assert(cs@.subrange(0, i + 1 as int).drop_last() =~= cs@.subrange(0, i as int));
            assert(cs@.subrange(0, i + 1 as int).last() == cs@[i as int]);
        }
        if !c.consumable.is_food() {
            r.push(c.pos);
        }
        i = i + 1;
    }
    proof {
        assert(cs@.subrange(0, n as int) =~= cs@);
    }
    r
}

/// Collects agent positions: all agents, only predators, or only prey.
pub fn agent_positions(bs: &Vec<Boid>, predators: bool, prey: bool) -> (r: Vec<Vec2Fx>)
    requires
        forall|k: int| 0 <= k < bs@.len() ==> (#[trigger] bs@[k]).wf(),
        !(predators && prey),
    ensures
        predators ==> r@ == predator_positions_sp(bs@),
        prey ==> r@ == boid_positions_sp(bs@),
        !predators && !prey ==> r@ == all_positions_sp(bs@),
        forall|k: int|
            0 <= k < r@.len() ==> abs_sp((#[trigger] r@[k]).x as int) <= POS_BOUND && abs_sp(
                r@[k].y as int,
            ) <= POS_BOUND,
{
    let n: usize = bs.len();
    let mut r: Vec<Vec2Fx> = Vec::new();
    let mut i: usize = 0;
    while i < n
        invariant
            i <= n,
            n == bs@.len(),
            !(predators && prey),
            forall|k: int| 0 <= k < bs@.len() ==> (#[trigger] bs@[k]).wf(),
            predators ==> r@ == predator_positions_sp(bs@.subrange(0, i as int)),
            prey ==> r@ == boid_positions_sp(bs@.subrange(0, i as int)),
            !predators && !prey ==> r@ == all_positions_sp(bs@.subrange(0, i as int)),
            forall|k: int|
                0 <= k < r@.len() ==> abs_sp((#[trigger] r@[k]).x as int) <= POS_BOUND && abs_sp(
                    r@[k].y as int,
                ) <= POS_BOUND,
        decreases n - i,
    {
        let b: Boid = *boid_at(bs, i);
        let ghost pre = bs@.subrange(0, i as int);
        let ghost post = bs@.subrange(0, i + 1 as int);
        proof {
            assert(post.drop_last() =~= pre);
            assert(post.last() == bs@[i as int]);
        }
        let is_pred: bool = b.predator_dna.is_some();
        if (predators && is_pred) || (prey && !is_pred) || (!predators && !prey) {
            r.push(b.pos);
        }
        proof {
            if predators {
                assert(r@ == predator_positions_sp(post));
            }
            if prey {
                assert(r@ == boid_positions_sp(post));
            }
            if !predators && !prey {
                assert(r@ == all_positions_sp(post));
            }
        }
        i = i + 1;
    }
    proof {
        assert(bs@.subrange(0, n as int) =~= bs@);
    }
    r
}

impl World {
    /// Steering pass for the prey boids: each accumulates its food, poison
    /// and predator channel forces from a snapshot of the world.
    pub fn update_boid_direction(&mut self)
        requires
            old(self).wf(),
        ensures
            final(self).wf(),
            final(self).boids@.len() == old(self).boids@.len(),
            forall|i: int|
                0 <= i < old(self).boids@.len() ==> final(self).boids@[i] == steer_step_sp(
                    #[trigger] old(self).boids@[i],
                    food_positions_sp(old(self).consumables@),
                    poison_positions_sp(old(self).consumables@),
                    predator_positions_sp(old(self).boids@),
                ),
            final(self).consumables == old(self).consumables,
            final(self).death_events == old(self).death_events,
            final(self).time_ms == old(self).time_ms,
            final(self).health_acc_ms == old(self).health_acc_ms,
            final(self).decay_acc_ms == old(self).decay_acc_ms,
            final(self).replication_acc_ms == old(self).replication_acc_ms,
            final(self).repopulate_acc_ms == old(self).repopulate_acc_ms,
    {
        let ghost orig = self.boids@;
        let foods: Vec<Vec2Fx> = food_positions(&self.consumables);
        let poisons: Vec<Vec2Fx> = poison_positions(&self.consumables);
        let preds: Vec<Vec2Fx> = agent_positions(&self.boids, true, false);
        let n: usize = self.boids.len();
        let mut i: usize = 0;
        while i < n
            invariant
                i <= n,
                n == self.boids@.len(),
                n == orig.len(),
                foods@ == food_positions_sp(old(self).consumables@),
                poisons@ == poison_positions_sp(old(self).consumables@),
                preds@ == predator_positions_sp(orig),
                forall|k: int|
                    0 <= k < foods@.len() ==> abs_sp((#[trigger] foods@[k]).x as int) <= POS_BOUND
                        && abs_sp(foods@[k].y as int) <= POS_BOUND,
                forall|k: int|
                    0 <= k < poisons@.len() ==> abs_sp((#[trigger] poisons@[k]).x as int)
                        <= POS_BOUND && abs_sp(poisons@[k].y as int) <= POS_BOUND,
                forall|k: int|
                    0 <= k < preds@.len() ==> abs_sp((#[trigger] preds@[k]).x as int) <= POS_BOUND
                        && abs_sp(preds@[k].y as int) <= POS_BOUND,
                forall|j: int| 0 <= j < n ==> (#[trigger] orig[j]).wf(),
                forall|j: int|
                    0 <= j < i ==> #[trigger] self.boids@[j] == steer_step_sp(
                        orig[j],
                        foods@,
                        poisons@,
                        preds@,
                    ) && self.boids@[j].wf(),
                forall|j: int| i <= j < n ==> #[trigger] self.boids@[j] == orig[j],
                self.consumables == old(self).consumables,
                self.death_events == old(self).death_events,
                self.time_ms == old(self).time_ms,
                self.health_acc_ms == old(self).health_acc_ms,
                self.decay_acc_ms == old(self).decay_acc_ms,
                self.replication_acc_ms == old(self).replication_acc_ms,
                self.repopulate_acc_ms == old(self).repopulate_acc_ms,
            decreases n - i,
        {
            let b: Boid = *boid_at(&self.boids, i);
            if b.predator_dna.is_none() {
                let t1: Option<Vec2Fx> = get_closest_item(
                    b.pos,
                    b.dna.food_perception_radius,
                    &foods,
                );
                proof {
                    lemma_closest_fold_props(
                        b.pos,
                        b.dna.food_perception_radius * b.dna.food_perception_radius,
                        foods@,
                        foods@.len() as int,
                        POS_BOUND as int,
                    );
                }
                let a1: Vec2Fx = apply_channel(
                    b.acc,
                    t1,
                    b.pos,
                    b.vel,
                    b.dna.steering_force,
                    b.dna.food_pull,
                );
                let t2: Option<Vec2Fx> = get_closest_item(
                    b.pos,
                    b.dna.poison_perception_radius,
                    &poisons,
                );
                proof {
                    lemma_closest_fold_props(
                        b.pos,
                        b.dna.poison_perception_radius * b.dna.poison_perception_radius,
                        poisons@,
                        poisons@.len() as int,
                        POS_BOUND as int,
                    );
                }
                let a2: Vec2Fx = apply_channel(
                    a1,
                    t2,
                    b.pos,
                    b.vel,
                    b.dna.steering_force,
                    b.dna.poison_pull,
                );
                let t3: Option<Vec2Fx> = get_closest_item(
                    b.pos,
                    b.dna.predator_perception_radius,
                    &preds,
                );
                proof {
                    lemma_closest_fold_props(
                        b.pos,
                        b.dna.predator_perception_radius * b.dna.predator_perception_radius,
                        preds@,
                        preds@.len() as int,
                        POS_BOUND as int,
                    );
                }
                let a3: Vec2Fx = apply_channel(
                    a2,
                    t3,
                    b.pos,
                    b.vel,
                    b.dna.steering_force,
                    b.dna.predator_pull,
                );
                let nb: Boid = Boid { acc: a3, ..b };
                let m: &mut Boid = vstd::std_specs::vec::vec_index_mut(&mut self.boids, i);
                *m = nb;
                proof {
                    assert(self.boids@[i as int] == steer_step_sp(
                        orig[i as int],
                        foods@,
                        poisons@,
                        preds@,
                    ));
                }
            }
            i = i + 1;
        }
        proof {
            assert forall|k: int| 0 <= k < orig.len() implies (#[trigger] orig[k]).is_predator()
                == self.boids@[k].is_predator() by {
                assert(self.boids@[k] == steer_step_sp(orig[k], foods@, poisons@, preds@));
            }
            lemma_kind_preserving_counts(orig, self.boids@);
            assert forall|k: int|
                0 <= k < self.boids@.len() implies (#[trigger] self.boids@[k]).wf()
                && self.boids@[k].birth_ms <= self.time_ms by {
                assert(self.boids@[k] == steer_step_sp(orig[k], foods@, poisons@, preds@));
                assert(orig[k].birth_ms <= old(self).time_ms);
            }
        }
    }

    /// Steering pass for the predators: each accumulates its prey channel
    /// force toward the nearest prey within its prey perception.
    pub fn update_predator_direction(&mut self)
        requires
            old(self).wf(),
        ensures
            final(self).wf(),
            final(self).boids@.len() == old(self).boids@.len(),
            forall|i: int|
                0 <= i < old(self).boids@.len() ==> final(self).boids@[i]
                    == predator_steer_step_sp(
                    #[trigger] old(self).boids@[i],
                    boid_positions_sp(old(self).boids@),
                ),
            final(self).consumables == old(self).consumables,
            final(self).death_events == old(self).death_events,
            final(self).time_ms == old(self).time_ms,
            final(self).health_acc_ms == old(self).health_acc_ms,
            final(self).decay_acc_ms == old(self).decay_acc_ms,
            final(self).replication_acc_ms == old(self).replication_acc_ms,
            final(self).repopulate_acc_ms == old(self).repopulate_acc_ms,
    {
        let ghost orig = self.boids@;
        let prey: Vec<Vec2Fx> = agent_positions(&self.boids, false, true);
        let n: usize = self.boids.len();
        let mut i: usize = 0;
        while i < n
            invariant
                i <= n,
                n == self.boids@.len(),
                n == orig.len(),
                prey@ == boid_positions_sp(orig),
                forall|k: int|
                    0 <= k < prey@.len() ==> abs_sp((#[trigger] prey@[k]).x as int) <= POS_BOUND
                        && abs_sp(prey@[k].y as int) <= POS_BOUND,
                forall|j: int| 0 <= j < n ==> (#[trigger] orig[j]).wf(),
                forall|j: int|
                    0 <= j < i ==> #[trigger] self.boids@[j] == predator_steer_step_sp(
                        orig[j],
                        prey@,
                    ) && self.boids@[j].wf(),
                forall|j: int| i <= j < n ==> #[trigger] self.boids@[j] == orig[j],
                self.consumables == old(self).consumables,
                self.death_events == old(self).death_events,
                self.time_ms == old(self).time_ms,
                self.health_acc_ms == old(self).health_acc_ms,
                self.decay_acc_ms == old(self).decay_acc_ms,
                self.replication_acc_ms == old(self).replication_acc_ms,
                self.repopulate_acc_ms == old(self).repopulate_acc_ms,
            decreases n - i,
        {
            let b: Boid = *boid_at(&self.boids, i);
            match b.predator_dna {
                Option::Some(p) => {
                    let t: Option<Vec2Fx> = get_closest_item(b.pos, p.prey_perception, &prey);
                    proof {
                        lemma_closest_fold_props(
                            b.pos,
                            p.prey_perception * p.prey_perception,
                            prey@,
                            prey@.len() as int,
                            POS_BOUND as int,
                        );
                    }
                    let a: Vec2Fx = apply_channel(
                        b.acc,
                        t,
                        b.pos,
                        b.vel,
                        b.dna.steering_force,
                        p.prey_pull,
                    );
                    let nb: Boid = Boid { acc: a, ..b };
                    let m: &mut Boid = vstd::std_specs::vec::vec_index_mut(&mut self.boids, i);
                    *m = nb;
                    proof {
                        assert(self.boids@[i as int] == predator_steer_step_sp(
                            orig[i as int],
                            prey@,
                        ));
                    }
                },
                Option::None => {},
            }
            i = i + 1;
        }
        proof {
            assert forall|k: int| 0 <= k < orig.len() implies (#[trigger] orig[k]).is_predator()
                == self.boids@[k].is_predator() by {
                assert(self.boids@[k] == predator_steer_step_sp(orig[k], prey@));
            }
            lemma_kind_preserving_counts(orig, self.boids@);
            assert forall|k: int|
                0 <= k < self.boids@.len() implies (#[trigger] self.boids@[k]).wf()
                && self.boids@[k].birth_ms <= self.time_ms by {
                assert(self.boids@[k] == predator_steer_step_sp(orig[k], prey@));
                assert(orig[k].birth_ms <= old(self).time_ms);
            }
        }
    }

    /// Boundary pass: agents at or beyond the arena edge are steered back
    /// toward the origin by a weak corrective force.
    pub fn boundary_boids_direction_update(&mut self)
        requires
            old(self).wf(),
        ensures
            final(self).wf(),
            final(self).boids@.len() == old(self).boids@.len(),
            forall|i: int|
                0 <= i < old(self).boids@.len() ==> final(self).boids@[i] == boundary_step_sp(
                    #[trigger] old(self).boids@[i],
                ),
            final(self).consumables == old(self).consumables,
            final(self).death_events == old(self).death_events,
            final(self).time_ms == old(self).time_ms,
            final(self).health_acc_ms == old(self).health_acc_ms,
            final(self).decay_acc_ms == old(self).decay_acc_ms,
            final(self).replication_acc_ms == old(self).replication_acc_ms,
            final(self).repopulate_acc_ms == old(self).repopulate_acc_ms,
    {
        let ghost orig = self.boids@;
        let n: usize = self.boids.len();
        let mut i: usize = 0;
        while i < n
            invariant
                i <= n,
                n == self.boids@.len(),
                n == orig.len(),
                forall|j: int| 0 <= j < n ==> (#[trigger] orig[j]).wf(),
                forall|j: int|
                    0 <= j < i ==> #[trigger] self.boids@[j] == boundary_step_sp(orig[j])
                        && self.boids@[j].wf(),
                forall|j: int| i <= j < n ==> #[trigger] self.boids@[j] == orig[j],
                self.consumables == old(self).consumables,
                self.death_events == old(self).death_events,
                self.time_ms == old(self).time_ms,
                self.health_acc_ms == old(self).health_acc_ms,
                self.decay_acc_ms == old(self).decay_acc_ms,
                self.replication_acc_ms == old(self).replication_acc_ms,
                self.repopulate_acc_ms == old(self).repopulate_acc_ms,
            decreases n - i,
        {
            let b: Boid = *boid_at(&self.boids, i);
            if b.pos.x <= -WORLD_W || b.pos.x >= WORLD_W || b.pos.y <= -WORLD_H || b.pos.y
                >= WORLD_H {
                let f: Vec2Fx = crate::utils::get_steering_force(
                    crate::vec2::Vec2Fx::zero(),
                    b.pos,
                    b.vel,
                );
                let a: Vec2Fx = apply_force(b.acc, f, crate::configs::BOUNDARY_FORCE_SCALE);
                let nb: Boid = Boid { acc: a, ..b };
                let m: &mut Boid = vstd::std_specs::vec::vec_index_mut(&mut self.boids, i);
                *m = nb;
                proof {
                    assert(self.boids@[i as int] == boundary_step_sp(orig[i as int]));
                }
            }
            i = i + 1;
        }
        proof {
            assert forall|k: int| 0 <= k < orig.len() implies (#[trigger] orig[k]).is_predator()
                == self.boids@[k].is_predator() by {
                assert(self.boids@[k] == boundary_step_sp(orig[k]));
            }
            lemma_kind_preserving_counts(orig, self.boids@);
            assert forall|k: int|
                0 <= k < self.boids@.len() implies (#[trigger] self.boids@[k]).wf()
                && self.boids@[k].birth_ms <= self.time_ms by {
                assert(self.boids@[k] == boundary_step_sp(orig[k]));
                assert(orig[k].birth_ms <= old(self).time_ms);
            }
        }
    }

    /// Separation pass: every pair of agents strictly within the
    /// separation radius repel each other a little, preventing total
    /// overlap.
    pub fn boid_separation(&mut self)
        requires
            old(self).wf(),
        ensures
            final(self).wf(),
            final(self).boids@.len() == old(self).boids@.len(),
            forall|i: int|
                0 <= i < old(self).boids@.len() ==> final(self).boids@[i] == sep_step_sp(
                    #[trigger] old(self).boids@[i],
                    all_positions_sp(old(self).boids@),
                ),
            final(self).consumables == old(self).consumables,
            final(self).death_events == old(self).death_events,
            final(self).time_ms == old(self).time_ms,
            final(self).health_acc_ms == old(self).health_acc_ms,
            final(self).decay_acc_ms == old(self).decay_acc_ms,
            final(self).replication_acc_ms == old(self).replication_acc_ms,
            final(self).repopulate_acc_ms == old(self).repopulate_acc_ms,
    {
        let ghost orig = self.boids@;
        let ps: Vec<Vec2Fx> = agent_positions(&self.boids, false, false);
        let n: usize = self.boids.len();
        let mut i: usize = 0;
        while i < n
            invariant
                i <= n,
                n == self.boids@.len(),
                n == orig.len(),
                ps@ == all_positions_sp(orig),
                forall|k: int|
                    0 <= k < ps@.len() ==> abs_sp((#[trigger] ps@[k]).x as int) <= POS_BOUND
                        && abs_sp(ps@[k].y as int) <= POS_BOUND,
                forall|j: int| 0 <= j < n ==> (#[trigger] orig[j]).wf(),
                forall|j: int|
                    0 <= j < i ==> #[trigger] self.boids@[j] == sep_step_sp(orig[j], ps@)
                        && self.boids@[j].wf(),
                forall|j: int| i <= j < n ==> #[trigger] self.boids@[j] == orig[j],
                self.consumables == old(self).consumables,
                self.death_events == old(self).death_events,
                self.time_ms == old(self).time_ms,
                self.health_acc_ms == old(self).health_acc_ms,
                self.decay_acc_ms == old(self).decay_acc_ms,
                self.replication_acc_ms == old(self).replication_acc_ms,
                self.repopulate_acc_ms == old(self).repopulate_acc_ms,
            decreases n - i,
        {
            let b: Boid = *boid_at(&self.boids, i);
            let m: usize = ps.len();
            let mut a: Vec2Fx = b.acc;
            let mut k: usize = 0;
            while k < m
                invariant
                    k <= m,
                    m == ps@.len(),
                    b.wf(),
                    forall|j: int|
                        0 <= j < ps@.len() ==> abs_sp((#[trigger] ps@[j]).x as int) <= POS_BOUND
                            && abs_sp(ps@[j].y as int) <= POS_BOUND,
                    a == sep_fold_sp(ps@, b.pos, b.vel, b.acc, k as int),
                    abs_sp(a.x as int) <= ACC_BOUND,
                    abs_sp(a.y as int) <= ACC_BOUND,
                decreases m - k,
            {
                let p: Vec2Fx = *vstd::std_specs::vec::vec_index(&ps, k);
                let d: i64 = dist_sq(p, b.pos);
                if d != 0 && d <= crate::configs::SEPARATION_DIST_SQ {
                    let f: Vec2Fx = crate::utils::get_steering_force(p, b.pos, b.vel);
                    a = apply_force(a, f, crate::configs::SEPARATION_FORCE_SCALE);
                }
                k = k + 1;
            }
            let nb: Boid = Boid { acc: a, ..b };
            let m2: &mut Boid = vstd::std_specs::vec::vec_index_mut(&mut self.boids, i);
            *m2 = nb;
            proof {
                assert(self.boids@[i as int] == sep_step_sp(orig[i as int], ps@));
            }
            i = i + 1;
        }
        proof {
            assert forall|k: int| 0 <= k < orig.len() implies (#[trigger] orig[k]).is_predator()
                == self.boids@[k].is_predator() by {
                assert(self.boids@[k] == sep_step_sp(orig[k], ps@));
            }
            lemma_kind_preserving_counts(orig, self.boids@);
            assert forall|k: int|
                0 <= k < self.boids@.len() implies (#[trigger] self.boids@[k]).wf()
                && self.boids@[k].birth_ms <= self.time_ms by {
                assert(self.boids@[k] == sep_step_sp(orig[k], ps@));
                assert(orig[k].birth_ms <= old(self).time_ms);
            }
        }
    }
}

// ------------------------------------------------------------------
// Consumption: agents eat the first consumable within collision range.
/// The lowest index of a consumable strictly within `r_sq` of `p`.
pub open spec fn first_hit_sp(cs: Seq<ConsumableItem>, p: Vec2Fx, r_sq: int) -> Option<int>
    decreases cs.len(),
{
    if cs.len() == 0 {
        Option::None
    } else if dist_sq_sp(p, cs[0].pos) < r_sq {
        Option::Some(0int)
    } else {
        match first_hit_sp(cs.drop_first(), p, r_sq) {
            Option::Some(j) => Option::Some(j + 1),
            Option::None => Option::None,
        }
    }
}

/// `first_hit_sp` returns the lowest hit index, or nothing when no
/// consumable is in range.
pub proof fn lemma_first_hit_character(cs: Seq<ConsumableItem>, p: Vec2Fx, r_sq: int)
    ensures
        match first_hit_sp(cs, p, r_sq) {
            Option::None => forall|k: int|
                0 <= k < cs.len() ==> dist_sq_sp(p, (#[trigger] cs[k]).pos) >= r_sq,
            Option::Some(j) => 0 <= j < cs.len() && dist_sq_sp(p, cs[j].pos) < r_sq && forall|
                k: int,
            | 0 <= k < j ==> dist_sq_sp(p, (#[trigger] cs[k]).pos) >= r_sq,
        },
    decreases cs.len(),
{
    if cs.len() > 0 {
        lemma_first_hit_character(cs.drop_first(), p, r_sq);
        assert(forall|k: int| 1 <= k < cs.len() ==> (#[trigger] cs[k]) == cs.drop_first()[k - 1]);
    }
}

/// Health after a pickup: the nutrition is added and the result clamped
/// into `[0, BOID_MAX_HEALTH]`.
pub open spec fn heal_sp(b: Boid, n: int) -> Boid {
    Boid { health: clamp_sp(b.health + n, 0, BOID_MAX_HEALTH as int) as i64, ..b }
}

/// The consumption pass over the first `i` agents: each non-predator in
/// order eats the first remaining consumable strictly within collision
/// range, which leaves the world at once, so no consumable feeds two
/// agents.
pub open spec fn consume_fold_sp(bs: Seq<Boid>, cs: Seq<ConsumableItem>, i: int) -> (
    Seq<Boid>,
    Seq<ConsumableItem>,
)
    decreases i,
{
    if i <= 0 {
        (bs, cs)
    } else {
        let r = consume_fold_sp(bs, cs, i - 1);
        let bs1 = r.0;
        let cs1 = r.1;
        let b = bs1[i - 1];
        if b.is_predator() {
            (bs1, cs1)
        } else {
            match first_hit_sp(cs1, b.pos, BOID_COLLISION_RADIUS * BOID_COLLISION_RADIUS) {
                Option::None => (bs1, cs1),
                Option::Some(j) => (bs1.update(i - 1, heal_sp(b, cs1[j].consumable.0 as int)), cs1.remove(j)),
            }
        }
    }
}

/// Frame conditions of the consumption fold: agent count and kinds are
/// kept, agents at or past `i` are untouched, consumables only leave.
pub proof fn lemma_consume_fold_props(bs: Seq<Boid>, cs: Seq<ConsumableItem>, i: int, t: u64)
    requires
        0 <= i <= bs.len(),
        forall|k: int| 0 <= k < bs.len() ==> (#[trigger] bs[k]).wf() && bs[k].birth_ms <= t,
        forall|k: int|
            0 <= k < cs.len() ==> (#[trigger] cs[k]).wf() && cs[k].last_replication_ms <= t,
    ensures
        ({
            let r = consume_fold_sp(bs, cs, i);
            &&& r.0.len() == bs.len()
            &&& r.1.len() <= cs.len()
            &&& forall|k: int|
                0 <= k < bs.len() ==> (#[trigger] r.0[k]).wf() && r.0[k].birth_ms <= t
                    && r.0[k].is_predator() == bs[k].is_predator() && r.0[k].pos == bs[k].pos
                    && r.0[k].dna == bs[k].dna
            &&& forall|k: int| i <= k < bs.len() ==> #[trigger] r.0[k] == bs[k]
            &&& forall|k: int|
                0 <= k < r.1.len() ==> (#[trigger] r.1[k]).wf() && r.1[k].last_replication_ms
                    <= t
        }),
    decreases i,
{
    if i > 0 {
        lemma_consume_fold_props(bs, cs, i - 1, t);
        let r = consume_fold_sp(bs, cs, i - 1);
        let b = r.0[i - 1];
        if !b.is_predator() {
            lemma_first_hit_character(r.1, b.pos, BOID_COLLISION_RADIUS * BOID_COLLISION_RADIUS);
            match first_hit_sp(r.1, b.pos, BOID_COLLISION_RADIUS * BOID_COLLISION_RADIUS) {
                Option::None => {},
                Option::Some(j) => {
                    assert(forall|k: int|
                        0 <= k < r.1.remove(j).len() ==> #[trigger] r.1.remove(j)[k] == if k < j {
                            r.1[k]
                        } else {
                            r.1[k + 1]
                        });
                },
            }
        }
    }
}

impl World {
    /// Consumption pass: every non-predator agent, in order, eats the
    /// first consumable strictly within `BOID_COLLISION_RADIUS` of it, and
    /// the eaten consumable leaves the world at once.
    pub fn handle_boid_collision(&mut self)
        requires
            old(self).wf(),
        ensures
            final(self).wf(),
            ({
                let r = consume_fold_sp(
                    old(self).boids@,
                    old(self).consumables@,
                    old(self).boids@.len() as int,
                );
                final(self).boids@ == r.0 && final(self).consumables@ == r.1
            }),
            final(self).death_events == old(self).death_events,
            final(self).time_ms == old(self).time_ms,
            final(self).health_acc_ms == old(self).health_acc_ms,
            final(self).decay_acc_ms == old(self).decay_acc_ms,
            final(self).replication_acc_ms == old(self).replication_acc_ms,
            final(self).repopulate_acc_ms == old(self).repopulate_acc_ms,
    {
        let ghost orig_b = self.boids@;
        let ghost orig_c = self.consumables@;
        let r2: i64 = BOID_COLLISION_RADIUS * BOID_COLLISION_RADIUS;
        let n: usize = self.boids.len();
        let mut i: usize = 0;
        while i < n
            invariant
                i <= n,
                n == orig_b.len(),
                r2 == BOID_COLLISION_RADIUS * BOID_COLLISION_RADIUS,
                forall|k: int|
                    0 <= k < orig_b.len() ==> (#[trigger] orig_b[k]).wf() && orig_b[k].birth_ms
                        <= self.time_ms,
                forall|k: int|
                    0 <= k < orig_c.len() ==> (#[trigger] orig_c[k]).wf()
                        && orig_c[k].last_replication_ms <= self.time_ms,
                ({
                    let r = consume_fold_sp(orig_b, orig_c, i as int);
                    self.boids@ == r.0 && self.consumables@ == r.1
                }),
                self.death_events == old(self).death_events,
                self.time_ms == old(self).time_ms,
                self.health_acc_ms == old(self).health_acc_ms,
                self.decay_acc_ms == old(self).decay_acc_ms,
                self.replication_acc_ms == old(self).replication_acc_ms,
                self.repopulate_acc_ms == old(self).repopulate_acc_ms,
            decreases n - i,
        {
            proof {
                lemma_consume_fold_props(orig_b, orig_c, i as int, self.time_ms);
            }
            let b: Boid = *boid_at(&self.boids, i);
            if b.predator_dna.is_none() {
                let m: usize = self.consumables.len();
                let mut j: usize = 0;
                let mut hit: Option<usize> = None;
                while j < m
                    invariant_except_break
                        hit is None,
                    invariant
                        j <= m,
                        m == self.consumables@.len(),
                        b.wf(),
                        r2 == BOID_COLLISION_RADIUS * BOID_COLLISION_RADIUS,
                        forall|k: int|
                            0 <= k < self.consumables@.len()
                                ==> (#[trigger] self.consumables@[k]).wf(),
                        forall|k: int|
                            0 <= k < j ==> dist_sq_sp(b.pos, (#[trigger] self.consumables@[k]).pos)
                                >= r2,
                    ensures
                        j <= m,
                        m == self.consumables@.len(),
                        match hit {
                            Option::Some(h) => h < m && dist_sq_sp(
                                b.pos,
                                self.consumables@[h as int].pos,
                            ) < r2 && forall|k: int|
                                0 <= k < h ==> dist_sq_sp(
                                    b.pos,
                                    (#[trigger] self.consumables@[k]).pos,
                                ) >= r2,
                            Option::None => forall|k: int|
                                0 <= k < m ==> dist_sq_sp(
                                    b.pos,
                                    (#[trigger] self.consumables@[k]).pos,
                                ) >= r2,
                        },
                    decreases m - j,
                {
                    let c: ConsumableItem = *consumable_at(&self.consumables, j);
                    let d: i64 = dist_sq(b.pos, c.pos);
                    if d < r2 {
                        hit = Some(j);
                        break ;
                    }
                    j = j + 1;
                }
                proof {
                    lemma_first_hit_character(self.consumables@, b.pos, r2 as int);
                }
                match hit {
                    Option::Some(h) => {
                        let item: ConsumableItem = self.consumables.remove(h);
                        let nh: i64 = crate::fx::clamp_i64(
                            b.health + item.consumable.0,
                            0,
                            BOID_MAX_HEALTH,
                        );
                        let nb: Boid = Boid { health: nh, ..b };
                        let m2: &mut Boid = vstd::std_specs::vec::vec_index_mut(
                            &mut self.boids,
                            i,
                        );
                        *m2 = nb;
                        proof {
                            let r = consume_fold_sp(orig_b, orig_c, i as int);
                            assert(first_hit_sp(r.1, b.pos, r2 as int) == Option::Some(h as int));
                            assert(nb == heal_sp(b, r.1[h as int].consumable.0 as int));
                        }
                    },
                    Option::None => {
                        proof {
                            let r = consume_fold_sp(orig_b, orig_c, i as int);
                            assert(first_hit_sp(r.1, b.pos, r2 as int) is None);
                        }
                    },
                }
            }
            i = i + 1;
        }
        proof {
            lemma_consume_fold_props(orig_b, orig_c, n as int, self.time_ms);
            let r = consume_fold_sp(orig_b, orig_c, n as int);
            assert forall|k: int| 0 <= k < orig_b.len() implies (#[trigger] orig_b[k]).is_predator()
                == r.0[k].is_predator() by {}
            lemma_kind_preserving_counts(orig_b, r.0);
        }
    }
}

// ------------------------------------------------------------------
// Predation: predators eat the first live prey within predation range.
/// The lowest index of a live (not yet eaten) non-predator strictly
/// within `r_sq` of `p`.
pub open spec fn prey_hit_sp(bs: Seq<Boid>, eaten: Seq<bool>, p: Vec2Fx, r_sq: int) -> Option<int>
    decreases bs.len(),
{
    if bs.len() == 0 || eaten.len() != bs.len() {
        Option::None
    } else if !bs[0].is_predator() && !eaten[0] && dist_sq_sp(p, bs[0].pos) < r_sq {
        Option::Some(0int)
    } else {
        match prey_hit_sp(bs.drop_first(), eaten.drop_first(), p, r_sq) {
            Option::Some(j) => Option::Some(j + 1),
            Option::None => Option::None,
        }
    }
}

pub open spec fn is_prey_hit(bs: Seq<Boid>, eaten: Seq<bool>, p: Vec2Fx, r_sq: int, k: int) -> bool {
    !bs[k].is_predator() && !eaten[k] && dist_sq_sp(p, bs[k].pos) < r_sq
}

pub proof fn lemma_prey_hit_character(bs: Seq<Boid>, eaten: Seq<bool>, p: Vec2Fx, r_sq: int)
    requires
        eaten.len() == bs.len(),
    ensures
        match prey_hit_sp(bs, eaten, p, r_sq) {
            Option::None => forall|k: int| 0 <= k < bs.len() ==> !is_prey_hit(bs, eaten, p, r_sq, k),
            Option::Some(j) => 0 <= j < bs.len() && is_prey_hit(bs, eaten, p, r_sq, j) && forall|
                k: int,
            | 0 <= k < j ==> !is_prey_hit(bs, eaten, p, r_sq, k),
        },
    decreases bs.len(),
{
    if bs.len() > 0 {
        lemma_prey_hit_character(bs.drop_first(), eaten.drop_first(), p, r_sq);
        assert forall|k: int| 1 <= k < bs.len() implies (is_prey_hit(bs, eaten, p, r_sq, k)
            == is_prey_hit(bs.drop_first(), eaten.drop_first(), p, r_sq, k - 1)) by {
            assert(bs[k] == bs.drop_first()[k - 1]);
            assert(eaten[k] == eaten.drop_first()[k - 1]);
        }
    }
}

/// The predation pass over the first `i` agents: each predator in order
/// eats the first live prey strictly within predation range; the prey is
/// marked eaten at once, so no prey feeds two predators, and a death
/// event carrying the prey's position is raised.
pub open spec fn predation_fold_sp(
    bs: Seq<Boid>,
    eaten: Seq<bool>,
    events: Seq<Vec2Fx>,
    i: int,
) -> (Seq<Boid>, Seq<bool>, Seq<Vec2Fx>)
    decreases i,
{
    if i <= 0 {
        (bs, eaten, events)
    } else {
        let r = predation_fold_sp(bs, eaten, events, i - 1);
        let b = r.0[i - 1];
        if !b.is_predator() {
            r
        } else {
            match prey_hit_sp(
                r.0,
                r.1,
                b.pos,
                PREDATOR_COLLISION_RADIUS * PREDATOR_COLLISION_RADIUS,
            ) {
                Option::None => r,
                Option::Some(j) => (
                    r.0.update(i - 1, heal_sp(b, BOID_NUTRITION as int)),
                    r.1.update(j, true),
                    r.2.push(r.0[j].pos),
                ),
            }
        }
    }
}

pub proof fn lemma_predation_fold_props(
    bs: Seq<Boid>,
    events: Seq<Vec2Fx>,
    i: int,
    t: u64,
)
    requires
        0 <= i <= bs.len(),
        forall|k: int| 0 <= k < bs.len() ==> (#[trigger] bs[k]).wf() && bs[k].birth_ms <= t,
        forall|k: int|
            0 <= k < events.len() ==> abs_sp((#[trigger] events[k]).x as int) <= POS_BOUND
                && abs_sp(events[k].y as int) <= POS_BOUND,
    ensures
        ({
            let r = predation_fold_sp(bs, Seq::new(bs.len(), |k: int| false), events, i);
            &&& r.0.len() == bs.len()
            &&& r.1.len() == bs.len()
            &&& forall|k: int|
                0 <= k < bs.len() ==> (#[trigger] r.0[k]).wf() && r.0[k].birth_ms <= t
                    && r.0[k].is_predator() == bs[k].is_predator() && r.0[k].pos == bs[k].pos
            &&& forall|k: int| 0 <= k < bs.len() && #[trigger] r.1[k] ==> !bs[k].is_predator()
            &&& r.2.len() >= events.len()
            &&& forall|k: int| 0 <= k < events.len() ==> #[trigger] r.2[k] == events[k]
            &&& forall|k: int|
                0 <= k < r.2.len() ==> abs_sp((#[trigger] r.2[k]).x as int) <= POS_BOUND
                    && abs_sp(r.2[k].y as int) <= POS_BOUND
        }),
    decreases i,
{
    if i > 0 {
        lemma_predation_fold_props(bs, events, i - 1, t);
        let r = predation_fold_sp(bs, Seq::new(bs.len(), |k: int| false), events, i - 1);
        let b = r.0[i - 1];
        if b.is_predator() {
            lemma_prey_hit_character(
                r.0,
                r.1,
                b.pos,
                PREDATOR_COLLISION_RADIUS * PREDATOR_COLLISION_RADIUS,
            );
        }
    }
}

/// The agents left after the eaten ones are removed, in order.
pub open spec fn mask_filter_sp(bs: Seq<Boid>, eaten: Seq<bool>) -> Seq<Boid>
    decreases bs.len(),
{
    if bs.len() == 0 || eaten.len() != bs.len() {
        bs
    } else if eaten.last() {
        mask_filter_sp(bs.drop_last(), eaten.drop_last())
    } else {
        mask_filter_sp(bs.drop_last(), eaten.drop_last()).push(bs.last())
    }
}

pub proof fn lemma_mask_filter_props(bs: Seq<Boid>, eaten: Seq<bool>, t: u64)
    requires
        eaten.len() == bs.len(),
        forall|k: int| 0 <= k < bs.len() ==> (#[trigger] bs[k]).wf() && bs[k].birth_ms <= t,
        forall|k: int| 0 <= k < bs.len() && #[trigger] eaten[k] ==> !bs[k].is_predator(),
    ensures
        count_boids(mask_filter_sp(bs, eaten)) <= count_boids(bs),
        count_predators(mask_filter_sp(bs, eaten)) == count_predators(bs),
        mask_filter_sp(bs, eaten).len() <= bs.len(),
        forall|k: int|
            0 <= k < mask_filter_sp(bs, eaten).len() ==> (#[trigger] mask_filter_sp(bs, eaten)[k]).wf()
                && mask_filter_sp(bs, eaten)[k].birth_ms <= t,
    decreases bs.len(),
{
    if bs.len() > 0 {
        assert(forall|k: int|
            0 <= k < bs.len() - 1 ==> #[trigger] bs.drop_last()[k] == bs[k]
                && eaten.drop_last()[k] == eaten[k]);
        lemma_mask_filter_props(bs.drop_last(), eaten.drop_last(), t);
        lemma_counts_bounds(bs.drop_last());
        if !eaten.last() {
            lemma_counts_push(mask_filter_sp(bs.drop_last(), eaten.drop_last()), bs.last());
        }
    }
}

impl World {
    /// Predation pass: every predator, in order, consumes the first prey
    /// strictly within `PREDATOR_COLLISION_RADIUS`, gaining the prey
    /// nutrition reward; the prey leaves the world and raises a death
    /// event at its position.
    pub fn handle_predator_collision(&mut self)
        requires
            old(self).wf(),
        ensures
            final(self).wf(),
            ({
                let r = predation_fold_sp(
                    old(self).boids@,
                    Seq::new(old(self).boids@.len(), |k: int| false),
                    old(self).death_events@,
                    old(self).boids@.len() as int,
                );
                final(self).boids@ == mask_filter_sp(r.0, r.1) && final(self).death_events@ == r.2
            }),
            final(self).consumables == old(self).consumables,
            final(self).time_ms == old(self).time_ms,
            final(self).health_acc_ms == old(self).health_acc_ms,
            final(self).decay_acc_ms == old(self).decay_acc_ms,
            final(self).replication_acc_ms == old(self).replication_acc_ms,
            final(self).repopulate_acc_ms == old(self).repopulate_acc_ms,
    {
        let ghost orig_b = self.boids@;
        let ghost orig_e = self.death_events@;
        let r2: i64 = PREDATOR_COLLISION_RADIUS * PREDATOR_COLLISION_RADIUS;
        let n: usize = self.boids.len();
        let mut eaten: Vec<bool> = Vec::new();
        let mut z: usize = 0;
        while z < n
            invariant
                z <= n,
                eaten@.len() == z,
                forall|k: int| 0 <= k < z ==> !(#[trigger] eaten@[k]),
            decreases n - z,
        {
            eaten.push(false);
            z = z + 1;
        }
        proof {
            assert(eaten@ =~= Seq::new(orig_b.len(), |k: int| false));
        }
        let mut i: usize = 0;
        while i < n
            invariant
                i <= n,
                n == orig_b.len(),
                r2 == PREDATOR_COLLISION_RADIUS * PREDATOR_COLLISION_RADIUS,
                forall|k: int|
                    0 <= k < orig_b.len() ==> (#[trigger] orig_b[k]).wf() && orig_b[k].birth_ms
                        <= self.time_ms,
                forall|k: int|
                    0 <= k < orig_e.len() ==> abs_sp((#[trigger] orig_e[k]).x as int) <= POS_BOUND
                        && abs_sp(orig_e[k].y as int) <= POS_BOUND,
                ({
                    let r = predation_fold_sp(
                        orig_b,
                        Seq::new(orig_b.len(), |k: int| false),
                        orig_e,
                        i as int,
                    );
                    self.boids@ == r.0 && eaten@ == r.1 && self.death_events@ == r.2
                }),
                self.consumables == old(self).consumables,
                orig_e == old(self).death_events@,
                self.time_ms == old(self).time_ms,
                self.health_acc_ms == old(self).health_acc_ms,
                self.decay_acc_ms == old(self).decay_acc_ms,
                self.replication_acc_ms == old(self).replication_acc_ms,
                self.repopulate_acc_ms == old(self).repopulate_acc_ms,
            decreases n - i,
        {
            proof {
                lemma_predation_fold_props(orig_b, orig_e, i as int, self.time_ms);
            }
            let b: Boid = *boid_at(&self.boids, i);
            if b.predator_dna.is_some() {
                let mut j: usize = 0;
                let mut hit: Option<usize> = None;
                while j < n
                    invariant_except_break
                        hit is None,
                    invariant
                        j <= n,
                        n == self.boids@.len(),
                        n == eaten@.len(),
                        b.wf(),
                        r2 == PREDATOR_COLLISION_RADIUS * PREDATOR_COLLISION_RADIUS,
                        forall|k: int| 0 <= k < n ==> (#[trigger] self.boids@[k]).wf(),
                        forall|k: int|
                            0 <= k < j ==> !is_prey_hit(self.boids@, eaten@, b.pos, r2 as int, k),
                    ensures
                        n == self.boids@.len(),
                        n == eaten@.len(),
                        match hit {
                            Option::Some(h) => h < n && is_prey_hit(
                                self.boids@,
                                eaten@,
                                b.pos,
                                r2 as int,
                                h as int,
                            ) && forall|k: int|
                                0 <= k < h ==> !is_prey_hit(
                                    self.boids@,
                                    eaten@,
                                    b.pos,
                                    r2 as int,
                                    k,
                                ),
                            Option::None => forall|k: int|
                                0 <= k < n ==> !is_prey_hit(
                                    self.boids@,
                                    eaten@,
                                    b.pos,
                                    r2 as int,
                                    k,
                                ),
                        },
                    decreases n - j,
                {
                    let q: Boid = *boid_at(&self.boids, j);
                    let is_eaten: bool = *vstd::std_specs::vec::vec_index(&eaten, j);
                    if q.predator_dna.is_none() && !is_eaten {
                        let d: i64 = dist_sq(b.pos, q.pos);
                        if d < r2 {
                            hit = Some(j);
                            break ;
                        }
                    }
                    j = j + 1;
                }
                proof {
                    lemma_prey_hit_character(self.boids@, eaten@, b.pos, r2 as int);
                }
                match hit {
                    Option::Some(h) => {
                        let prey: Boid = *boid_at(&self.boids, h);
                        self.death_events.push(prey.pos);
                        let me: &mut bool = vstd::std_specs::vec::vec_index_mut(&mut eaten, h);
                        *me = true;
                        let nh: i64 = crate::fx::clamp_i64(
                            b.health + BOID_NUTRITION,
                            0,
                            BOID_MAX_HEALTH,
                        );
                        let nb: Boid = Boid { health: nh, ..b };
                        let m2: &mut Boid = vstd::std_specs::vec::vec_index_mut(
                            &mut self.boids,
                            i,
                        );
                        *m2 = nb;
                        proof {
                            assert(nb == heal_sp(b, BOID_NUTRITION as int));
                        }
                    },
                    Option::None => {},
                }
            }
            i = i + 1;
        }
        proof {
            lemma_predation_fold_props(orig_b, orig_e, n as int, self.time_ms);
        }
        let ghost rfold = predation_fold_sp(
            orig_b,
            Seq::new(orig_b.len(), |k: int| false),
            orig_e,
            n as int,
        );
        let mut kept: Vec<Boid> = Vec::new();
        let mut w: usize = 0;
        while w < n
            invariant
                w <= n,
                n == self.boids@.len(),
                n == eaten@.len(),
                kept@ == mask_filter_sp(
                    self.boids@.subrange(0, w as int),
                    eaten@.subrange(0, w as int),
                ),
            decreases n - w,
        {
            let q: Boid = *boid_at(&self.boids, w);
            let is_eaten: bool = *vstd::std_specs::vec::vec_index(&eaten, w);
            proof {
                assert(self.boids@.subrange(0, w + 1 as int).drop_last() =~= self.boids@.subrange(
                    0,
                    w as int,
                ));
                assert(eaten@.subrange(0, w + 1 as int).drop_last() =~= eaten@.subrange(
                    0,
                    w as int,
                ));
            }
            if !is_eaten {
                kept.push(q);
            }
            w = w + 1;
        }
        proof {
            assert(self.boids@.subrange(0, n as int) =~= self.boids@);
            assert(eaten@.subrange(0, n as int) =~= eaten@);
            assert(forall|k: int|
                0 <= k < orig_b.len() ==> (#[trigger] rfold.0[k]).is_predator()
                    == orig_b[k].is_predator());
            lemma_kind_preserving_counts(orig_b, rfold.0);
            lemma_mask_filter_props(rfold.0, rfold.1, self.time_ms);
        }
        self.boids = kept;
    }
}

// ------------------------------------------------------------------
// Population controller.
/// Counts the live prey boids and predators.
pub fn count_kinds(bs: &Vec<Boid>) -> (r: (usize, usize))
    ensures
        r.0 == count_boids(bs@),
        r.1 == count_predators(bs@),
{
    let n: usize = bs.len();
    let mut cb: usize = 0;
    let mut cp: usize = 0;
    let mut i: usize = 0;
    while i < n
        invariant
            i <= n,
            n == bs@.len(),
            cb == count_boids(bs@.subrange(0, i as int)),
            cp == count_predators(bs@.subrange(0, i as int)),
            cb + cp == i,
        decreases n - i,
    {
        let b: Boid = *boid_at(bs, i);
        proof {
            assert(bs@.subrange(0, i + 1 as int).drop_last() =~= bs@.subrange(0, i as int));
            assert(bs@.subrange(0, i + 1 as int).last() == bs@[i as int]);
        }
        if b.predator_dna.is_some() {
            cp = cp + 1;
        } else {
            cb = cb + 1;
        }
        i = i + 1;
    }
    proof {
        assert(bs@.subrange(0, n as int) =~= bs@);
    }
    (cb, cp)
}

/// `b` with only its replication timer changed.
pub open spec fn same_but_timer(a: Boid, b: Boid) -> bool {
    a == Boid { replicate_elapsed_ms: a.replicate_elapsed_ms, ..b }
}

/// The repeating replication timer after `dt` more milliseconds: it
/// completes a cycle when it reaches the interval, keeping the remainder.
pub open spec fn timer_advance_sp(e: u64, dt: u64) -> int {
    if e + dt >= BOID_REPLICATE_INTERVAL_MS {
        (e + dt) % (BOID_REPLICATE_INTERVAL_MS as int)
    } else {
        e + dt
    }
}

/// A prey parent that reproduces on every draw this pass: starving (health
/// at most half of full, which bypasses the random draw) with a timer that
/// completes a cycle this tick.
pub open spec fn boid_replication_due(b: Boid, dt: u64) -> bool {
    &&& !b.is_predator()
    &&& b.health <= BOID_MAX_HEALTH / 2
    &&& b.replicate_elapsed_ms + dt >= BOID_REPLICATE_INTERVAL_MS
}

/// A predator parent that reproduces on every draw this pass, with the
/// predators' lower health threshold of a third of full.
pub open spec fn predator_replication_due(b: Boid, dt: u64) -> bool {
    &&& b.is_predator()
    &&& b.health <= BOID_MAX_HEALTH / 3
    &&& b.replicate_elapsed_ms + dt >= BOID_REPLICATE_INTERVAL_MS
}

impl World {
    /// Replication pass for the prey boids. An agent attempts reproduction
    /// only when a random gate passes or its health is at most half of
    /// full; only then does its repeating timer advance, and on a
    /// completed cycle a child with the parent's mutated genome spawns at
    /// the parent's position, with full health and a fresh timer, unless
    /// the prey population has reached `NUM_BOIDS`.
    pub fn boids_replicate(&mut self, dt_ms: u64)
        requires
            old(self).wf(),
            dt_ms <= DT_MAX_MS,
        ensures
            final(self).wf(),
            final(self).boids@.len() == old(self).boids@.len() + count_boids(
                final(self).boids@,
            ) - count_boids(old(self).boids@),
            count_predators(final(self).boids@) == count_predators(old(self).boids@),
            count_boids(final(self).boids@) <= NUM_BOIDS,
            count_boids(final(self).boids@) >= count_boids(old(self).boids@),
            count_boids(old(self).boids@) < NUM_BOIDS && (exists|j: int|
                0 <= j < old(self).boids@.len() && boid_replication_due(
                    #[trigger] old(self).boids@[j],
                    dt_ms,
                )) ==> count_boids(final(self).boids@) > count_boids(old(self).boids@),
            forall|j: int|
                0 <= j < old(self).boids@.len() ==> same_but_timer(
                    #[trigger] final(self).boids@[j],
                    old(self).boids@[j],
                ),
            forall|j: int|
                0 <= j < old(self).boids@.len() && (#[trigger] old(
                    self,
                ).boids@[j]).is_predator() ==> final(self).boids@[j] == old(self).boids@[j],
            forall|j: int|
                0 <= j < old(self).boids@.len() ==> (#[trigger] final(self).boids@[j]).replicate_elapsed_ms == old(self).boids@[j].replicate_elapsed_ms
                    || final(self).boids@[j].replicate_elapsed_ms == timer_advance_sp(
                    old(self).boids@[j].replicate_elapsed_ms,
                    dt_ms,
                ),
            forall|j: int|
                0 <= j < old(self).boids@.len() && boid_replication_due(
                    #[trigger] old(self).boids@[j],
                    dt_ms,
                ) ==> final(self).boids@[j].replicate_elapsed_ms == timer_advance_sp(
                    old(self).boids@[j].replicate_elapsed_ms,
                    dt_ms,
                ),
            forall|k: int|
                old(self).boids@.len() <= k < final(self).boids@.len() ==> {
                    let c = #[trigger] final(self).boids@[k];
                    &&& c.wf()
                    &&& !c.is_predator()
                    &&& c.health == BOID_MAX_HEALTH
                    &&& c.birth_ms == old(self).time_ms
                    &&& c.replicate_elapsed_ms == 0
                    &&& c.acc == Vec2Fx::zero_sp()
                    &&& exists|j: int|
                        0 <= j < old(self).boids@.len() && !(#[trigger] old(
                            self,
                        ).boids@[j]).is_predator() && c.pos == old(self).boids@[j].pos && old(
                            self,
                        ).boids@[j].replicate_elapsed_ms + dt_ms >= BOID_REPLICATE_INTERVAL_MS
                            && exists|d: MutationDeltas|
                            d.wf() && c.dna == old(self).boids@[j].dna.apply_mutation_sp(d)
                },
            final(self).consumables == old(self).consumables,
            final(self).death_events == old(self).death_events,
            final(self).time_ms == old(self).time_ms,
            final(self).health_acc_ms == old(self).health_acc_ms,
            final(self).decay_acc_ms == old(self).decay_acc_ms,
            final(self).replication_acc_ms == old(self).replication_acc_ms,
            final(self).repopulate_acc_ms == old(self).repopulate_acc_ms,
    {
        let ghost orig = self.boids@;
        let counts: (usize, usize) = count_kinds(&self.boids);
        let mut cb: usize = counts.0;
        let ghost cb0 = count_boids(orig);
        let n: usize = self.boids.len();
        proof {
            lemma_counts_bounds(orig);
        }
        let mut i: usize = 0;
        while i < n
            invariant
                i <= n,
                n == orig.len(),
                cb0 == count_boids(orig),
                self.boids@.len() == n + cb - cb0,
                dt_ms <= DT_MAX_MS,
                forall|j: int| 0 <= j < n ==> (#[trigger] orig[j]).wf(),
                forall|j: int| 0 <= j < n ==> (#[trigger] orig[j]).birth_ms <= self.time_ms,
                forall|j: int|
                    0 <= j < i ==> same_but_timer(#[trigger] self.boids@[j], orig[j])
                        && self.boids@[j].wf(),
                forall|j: int|
                    0 <= j < i && (#[trigger] orig[j]).is_predator() ==> self.boids@[j]
                        == orig[j],
                forall|j: int|
                    0 <= j < i ==> (#[trigger] self.boids@[j]).replicate_elapsed_ms
                        == orig[j].replicate_elapsed_ms || self.boids@[j].replicate_elapsed_ms
                        == timer_advance_sp(orig[j].replicate_elapsed_ms, dt_ms),
                forall|j: int|
                    0 <= j < i && boid_replication_due(#[trigger] orig[j], dt_ms)
                        ==> self.boids@[j].replicate_elapsed_ms == timer_advance_sp(
                        orig[j].replicate_elapsed_ms,
                        dt_ms,
                    ),
                cb0 < NUM_BOIDS && (exists|j: int|
                    0 <= j < i && boid_replication_due(#[trigger] orig[j], dt_ms)) ==> cb > cb0,
                forall|j: int| i <= j < n ==> #[trigger] self.boids@[j] == orig[j],
                cb == count_boids(self.boids@),
                count_predators(self.boids@) == count_predators(orig),
                cb <= NUM_BOIDS,
                cb >= cb0,
                forall|k: int|
                    n <= k < self.boids@.len() ==> {
                        let c = #[trigger] self.boids@[k];
                        &&& c.wf()
                        &&& !c.is_predator()
                        &&& c.health == BOID_MAX_HEALTH
                        &&& c.birth_ms == self.time_ms
                        &&& c.replicate_elapsed_ms == 0
                        &&& c.acc == Vec2Fx::zero_sp()
                        &&& exists|j: int|
                            0 <= j < n && !(#[trigger] orig[j]).is_predator() && c.pos
                                == orig[j].pos && orig[j].replicate_elapsed_ms + dt_ms
                                >= BOID_REPLICATE_INTERVAL_MS && exists|d: MutationDeltas|
                                d.wf() && c.dna == orig[j].dna.apply_mutation_sp(d)
                    },
                self.consumables == old(self).consumables,
                self.death_events == old(self).death_events,
                self.time_ms == old(self).time_ms,
                self.health_acc_ms == old(self).health_acc_ms,
                self.decay_acc_ms == old(self).decay_acc_ms,
                self.replication_acc_ms == old(self).replication_acc_ms,
                self.repopulate_acc_ms == old(self).repopulate_acc_ms,
            decreases n - i,
        {
            let b: Boid = *boid_at(&self.boids, i);
            if b.predator_dna.is_none() {
                let gate: i64 = rand_i64(0, PROB_ONE);
                if gate >= BOID_REPLICATE_GATE || b.health <= BOID_MAX_HEALTH / 2 {
                    let acc: u64 = b.replicate_elapsed_ms + dt_ms;
                    if acc >= BOID_REPLICATE_INTERVAL_MS {
                        let nb: Boid = Boid {
                            replicate_elapsed_ms: acc % BOID_REPLICATE_INTERVAL_MS,
                            ..b
                        };
                        proof {
                            lemma_counts_update(self.boids@, i as int, nb);
                        }
                        let m: &mut Boid = vstd::std_specs::vec::vec_index_mut(
                            &mut self.boids,
                            i,
                        );
                        *m = nb;
                        if cb < NUM_BOIDS {
                            let deltas: MutationDeltas = MutationDeltas::rand();
                            let child_dna: Dna = b.dna.apply_mutation(deltas);
                            let child: Boid = crate::boid::Boid::spawn(
                                b.pos,
                                child_dna,
                                None,
                                self.time_ms,
                            );
                            proof {
                                lemma_counts_push(self.boids@, child);
                            }
                            self.boids.push(child);
                            cb = cb + 1;
                        }
                    } else {
                        let nb: Boid = Boid { replicate_elapsed_ms: acc, ..b };
                        proof {
                            lemma_counts_update(self.boids@, i as int, nb);
                        }
                        let m: &mut Boid = vstd::std_specs::vec::vec_index_mut(
                            &mut self.boids,
                            i,
                        );
                        *m = nb;
                    }
                }
            }
            i = i + 1;
        }
    }

    /// Replication pass for the predators, as for the prey boids but with
    /// the lower health threshold of a third of full health, the
    /// `NUM_PREDATORS` cap, and the predator trait block mutated along
    /// with the genome.
    pub fn predators_replicate(&mut self, dt_ms: u64)
        requires
            old(self).wf(),
            dt_ms <= DT_MAX_MS,
        ensures
            final(self).wf(),
            final(self).boids@.len() == old(self).boids@.len() + count_predators(
                final(self).boids@,
            ) - count_predators(old(self).boids@),
            count_boids(final(self).boids@) == count_boids(old(self).boids@),
            count_predators(final(self).boids@) <= NUM_PREDATORS,
            count_predators(final(self).boids@) >= count_predators(old(self).boids@),
            count_predators(old(self).boids@) < NUM_PREDATORS && (exists|j: int|
                0 <= j < old(self).boids@.len() && predator_replication_due(
                    #[trigger] old(self).boids@[j],
                    dt_ms,
                )) ==> count_predators(final(self).boids@) > count_predators(old(self).boids@),
            forall|j: int|
                0 <= j < old(self).boids@.len() ==> same_but_timer(
                    #[trigger] final(self).boids@[j],
                    old(self).boids@[j],
                ),
            forall|j: int|
                0 <= j < old(self).boids@.len() && !(#[trigger] old(
                    self,
                ).boids@[j]).is_predator() ==> final(self).boids@[j] == old(self).boids@[j],
            forall|j: int|
                0 <= j < old(self).boids@.len() ==> (#[trigger] final(self).boids@[j]).replicate_elapsed_ms
                    == old(self).boids@[j].replicate_elapsed_ms || final(self).boids@[j].replicate_elapsed_ms
                    == timer_advance_sp(old(self).boids@[j].replicate_elapsed_ms, dt_ms),
            forall|j: int|
                0 <= j < old(self).boids@.len() && predator_replication_due(
                    #[trigger] old(self).boids@[j],
                    dt_ms,
                ) ==> final(self).boids@[j].replicate_elapsed_ms == timer_advance_sp(
                    old(self).boids@[j].replicate_elapsed_ms,
                    dt_ms,
                ),
            forall|k: int|
                old(self).boids@.len() <= k < final(self).boids@.len() ==> {
                    let c = #[trigger] final(self).boids@[k];
                    &&& c.wf()
                    &&& c.is_predator()
                    &&& c.health == BOID_MAX_HEALTH
                    &&& c.birth_ms == old(self).time_ms
                    &&& c.replicate_elapsed_ms == 0
                    &&& c.acc == Vec2Fx::zero_sp()
                    &&& exists|j: int|
                        0 <= j < old(self).boids@.len() && (#[trigger] old(
                            self,
                        ).boids@[j]).is_predator() && c.pos == old(self).boids@[j].pos && old(
                            self,
                        ).boids@[j].replicate_elapsed_ms + dt_ms >= BOID_REPLICATE_INTERVAL_MS
                            && (exists|d: MutationDeltas|
                            d.wf() && c.dna == old(self).boids@[j].dna.apply_mutation_sp(d))
                            && (exists|pd: PredatorDeltas, pp: PredatorDna|
                            pd.wf() && old(self).boids@[j].predator_dna == Option::Some(pp)
                                && c.predator_dna == Option::Some(pp.apply_mutation_sp(pd)))
                },
            final(self).consumables == old(self).consumables,
            final(self).death_events == old(self).death_events,
            final(self).time_ms == old(self).time_ms,
            final(self).health_acc_ms == old(self).health_acc_ms,
            final(self).decay_acc_ms == old(self).decay_acc_ms,
            final(self).replication_acc_ms == old(self).replication_acc_ms,
            final(self).repopulate_acc_ms == old(self).repopulate_acc_ms,
    {
        let ghost orig = self.boids@;
        let counts: (usize, usize) = count_kinds(&self.boids);
        let mut cp: usize = counts.1;
        let ghost cp0 = count_predators(orig);
        let n: usize = self.boids.len();
        proof {
            lemma_counts_bounds(orig);
        }
        let mut i: usize = 0;
        while i < n
            invariant
                i <= n,
                n == orig.len(),
                cp0 == count_predators(orig),
                self.boids@.len() == n + cp - cp0,
                dt_ms <= DT_MAX_MS,
                forall|j: int| 0 <= j < n ==> (#[trigger] orig[j]).wf(),
                forall|j: int| 0 <= j < n ==> (#[trigger] orig[j]).birth_ms <= self.time_ms,
                forall|j: int|
                    0 <= j < i ==> same_but_timer(#[trigger] self.boids@[j], orig[j])
                        && self.boids@[j].wf(),
                forall|j: int|
                    0 <= j < i && !(#[trigger] orig[j]).is_predator() ==> self.boids@[j]
                        == orig[j],
                forall|j: int|
                    0 <= j < i ==> (#[trigger] self.boids@[j]).replicate_elapsed_ms
                        == orig[j].replicate_elapsed_ms || self.boids@[j].replicate_elapsed_ms
                        == timer_advance_sp(orig[j].replicate_elapsed_ms, dt_ms),
                forall|j: int|
                    0 <= j < i && predator_replication_due(#[trigger] orig[j], dt_ms)
                        ==> self.boids@[j].replicate_elapsed_ms == timer_advance_sp(
                        orig[j].replicate_elapsed_ms,
                        dt_ms,
                    ),
                cp0 < NUM_PREDATORS && (exists|j: int|
                    0 <= j < i && predator_replication_due(#[trigger] orig[j], dt_ms)) ==> cp
                    > cp0,
                forall|j: int| i <= j < n ==> #[trigger] self.boids@[j] == orig[j],
                cp == count_predators(self.boids@),
                count_boids(self.boids@) == count_boids(orig),
                cp <= NUM_PREDATORS,
                cp >= cp0,
                forall|k: int|
                    n <= k < self.boids@.len() ==> {
                        let c = #[trigger] self.boids@[k];
                        &&& c.wf()
                        &&& c.is_predator()
                        &&& c.health == BOID_MAX_HEALTH
                        &&& c.birth_ms == self.time_ms
                        &&& c.replicate_elapsed_ms == 0
                        &&& c.acc == Vec2Fx::zero_sp()
                        &&& exists|j: int|
                            0 <= j < n && (#[trigger] orig[j]).is_predator() && c.pos
                                == orig[j].pos && orig[j].replicate_elapsed_ms + dt_ms
                                >= BOID_REPLICATE_INTERVAL_MS && (exists|d: MutationDeltas|
                                d.wf() && c.dna == orig[j].dna.apply_mutation_sp(d)) && (exists|
                                pd: PredatorDeltas,
                                pp: PredatorDna,
                            |
                                pd.wf() && orig[j].predator_dna == Option::Some(pp)
                                    && c.predator_dna == Option::Some(pp.apply_mutation_sp(pd)))
                    },
                self.consumables == old(self).consumables,
                self.death_events == old(self).death_events,
                self.time_ms == old(self).time_ms,
                self.health_acc_ms == old(self).health_acc_ms,
                self.decay_acc_ms == old(self).decay_acc_ms,
                self.replication_acc_ms == old(self).replication_acc_ms,
                self.repopulate_acc_ms == old(self).repopulate_acc_ms,
            decreases n - i,
        {
            let b: Boid = *boid_at(&self.boids, i);
            match b.predator_dna {
                Option::Some(pdna) => {
                    let gate: i64 = rand_i64(0, PROB_ONE);
                    if gate >= BOID_REPLICATE_GATE || b.health <= BOID_MAX_HEALTH / 3 {
                        let acc: u64 = b.replicate_elapsed_ms + dt_ms;
                        if acc >= BOID_REPLICATE_INTERVAL_MS {
                            let nb: Boid = Boid {
                                replicate_elapsed_ms: acc % BOID_REPLICATE_INTERVAL_MS,
                                ..b
                            };
                            proof {
                                lemma_counts_update(self.boids@, i as int, nb);
                            }
                            let m: &mut Boid = vstd::std_specs::vec::vec_index_mut(
                                &mut self.boids,
                                i,
                            );
                            *m = nb;
                            if cp < NUM_PREDATORS {
                                let deltas: MutationDeltas = MutationDeltas::rand();
                                let child_dna: Dna = b.dna.apply_mutation(deltas);
                                let pdeltas: PredatorDeltas = PredatorDeltas::rand();
                                let child_pdna: PredatorDna = pdna.apply_mutation(pdeltas);
                                let child: Boid = crate::boid::Boid::spawn(
                                    b.pos,
                                    child_dna,
                                    Some(child_pdna),
                                    self.time_ms,
                                );
                                proof {
                                    lemma_counts_push(self.boids@, child);
                                }
                                self.boids.push(child);
                                cp = cp + 1;
                            }
                        } else {
                            let nb: Boid = Boid { replicate_elapsed_ms: acc, ..b };
                            proof {
                                lemma_counts_update(self.boids@, i as int, nb);
                            }
                            let m: &mut Boid = vstd::std_specs::vec::vec_index_mut(
                                &mut self.boids,
                                i,
                            );
                            *m = nb;
                        }
                    }
                },
                Option::None => {},
            }
            i = i + 1;
        }
    }
}

// ------------------------------------------------------------------
// Resource economy.
/// Counts the food and poison items.
pub fn count_consumable_kinds(cs: &Vec<ConsumableItem>) -> (r: (usize, usize))
    ensures
        r.0 == count_food(cs@),
        r.1 == count_poison(cs@),
{
    let n: usize = cs.len();
    let mut cf: usize = 0;
    let mut cp: usize = 0;
    let mut i: usize = 0;
    while i < n
        invariant
            i <= n,
            n == cs@.len(),
            cf == count_food(cs@.subrange(0, i as int)),
            cp == count_poison(cs@.subrange(0, i as int)),
            cf + cp == i,
        decreases n - i,
    {
        let c: ConsumableItem = *consumable_at(cs, i);
        proof {
            assert(cs@.subrange(0, i + 1 as int).drop_last() =~= cs@.subrange(0, i as int));
            assert(cs@.subrange(0, i + 1 as int).last() == cs@[i as int]);
        }
        if c.consumable.is_food() {
            cf = cf + 1;
        } else {
            cp = cp + 1;
        }
        i = i + 1;
    }
    proof {
        assert(cs@.subrange(0, n as int) =~= cs@);
    }
    (cf, cp)
}

/// Counts are preserved when one item is replaced by another of the same
/// kind.
pub proof fn lemma_consumable_counts_update(s: Seq<ConsumableItem>, i: int, c: ConsumableItem)
    requires
        0 <= i < s.len(),
        c.is_food_sp() == s[i].is_food_sp(),
    ensures
        count_food(s.update(i, c)) == count_food(s),
        count_poison(s.update(i, c)) == count_poison(s),
    decreases s.len(),
{
    let t = s.update(i, c);
    if i == s.len() - 1 {
        assert(t.drop_last() =~= s.drop_last());
    } else {
        assert(t.drop_last() =~= s.drop_last().update(i, c));
        lemma_consumable_counts_update(s.drop_last(), i, c);
    }
}

impl World {
    /// Decay pass: every consumable's nutrition magnitude moves one step
    /// toward its despawn floor and never crosses it.
    pub fn decay_consumables(&mut self)
        requires
            old(self).wf(),
        ensures
            final(self).wf(),
            final(self).consumables@.len() == old(self).consumables@.len(),
            forall|i: int|
                0 <= i < old(self).consumables@.len() ==> final(self).consumables@[i]
                    == (ConsumableItem {
                    consumable: (#[trigger] old(self).consumables@[i]).consumable.decay_sp(),
                    ..old(self).consumables@[i]
                }),
            final(self).boids == old(self).boids,
            final(self).death_events == old(self).death_events,
            final(self).time_ms == old(self).time_ms,
            final(self).health_acc_ms == old(self).health_acc_ms,
            final(self).decay_acc_ms == old(self).decay_acc_ms,
            final(self).replication_acc_ms == old(self).replication_acc_ms,
            final(self).repopulate_acc_ms == old(self).repopulate_acc_ms,
    {
        let ghost orig = self.consumables@;
        let n: usize = self.consumables.len();
        let mut i: usize = 0;
        while i < n
            invariant
                i <= n,
                n == self.consumables@.len(),
                n == orig.len(),
                forall|j: int|
                    0 <= j < n ==> (#[trigger] orig[j]).wf() && orig[j].last_replication_ms
                        <= self.time_ms,
                forall|j: int|
                    0 <= j < i ==> #[trigger] self.consumables@[j] == (ConsumableItem {
                        consumable: orig[j].consumable.decay_sp(),
                        ..orig[j]
                    }) && self.consumables@[j].wf(),
                forall|j: int| i <= j < n ==> #[trigger] self.consumables@[j] == orig[j],
                self.boids == old(self).boids,
                self.death_events == old(self).death_events,
                self.time_ms == old(self).time_ms,
                self.health_acc_ms == old(self).health_acc_ms,
                self.decay_acc_ms == old(self).decay_acc_ms,
                self.replication_acc_ms == old(self).replication_acc_ms,
                self.repopulate_acc_ms == old(self).repopulate_acc_ms,
            decreases n - i,
        {
            let c: ConsumableItem = *consumable_at(&self.consumables, i);
            let mut decayed: Consumable = c.consumable;
            decayed.decay();
            let nc: ConsumableItem = ConsumableItem { consumable: decayed, ..c };
            let m: &mut ConsumableItem = vstd::std_specs::vec::vec_index_mut(
                &mut self.consumables,
                i,
            );
            *m = nc;
            i = i + 1;
        }
    }
}

/// The consumables that survive a despawn check, in order.
pub open spec fn surviving_sp(cs: Seq<ConsumableItem>) -> Seq<ConsumableItem>
    decreases cs.len(),
{
    if cs.len() == 0 {
        Seq::empty()
    } else if cs.last().consumable.is_despawn_sp() {
        surviving_sp(cs.drop_last())
    } else {
        surviving_sp(cs.drop_last()).push(cs.last())
    }
}

pub proof fn lemma_surviving_props(cs: Seq<ConsumableItem>, t: u64)
    requires
        forall|j: int|
            0 <= j < cs.len() ==> (#[trigger] cs[j]).wf() && cs[j].last_replication_ms <= t,
    ensures
        surviving_sp(cs).len() <= cs.len(),
        forall|i: int|
            0 <= i < surviving_sp(cs).len() ==> (#[trigger] surviving_sp(cs)[i]).wf()
                && surviving_sp(cs)[i].last_replication_ms <= t && !surviving_sp(
                cs,
            )[i].consumable.is_despawn_sp(),
    decreases cs.len(),
{
    if cs.len() > 0 {
        lemma_surviving_props(cs.drop_last(), t);
    }
}

impl World {
    /// Despawn pass: consumables whose magnitude has reached the floor
    /// leave the world, without an event.
    pub fn despawn_consumables(&mut self)
        requires
            old(self).wf(),
        ensures
            final(self).wf(),
            final(self).consumables@ == surviving_sp(old(self).consumables@),
            forall|i: int|
                0 <= i < final(self).consumables@.len() ==> !(#[trigger] final(self).consumables@[i]).consumable.is_despawn_sp(),
            final(self).boids == old(self).boids,
            final(self).death_events == old(self).death_events,
            final(self).time_ms == old(self).time_ms,
            final(self).health_acc_ms == old(self).health_acc_ms,
            final(self).decay_acc_ms == old(self).decay_acc_ms,
            final(self).replication_acc_ms == old(self).replication_acc_ms,
            final(self).repopulate_acc_ms == old(self).repopulate_acc_ms,
    {
        let ghost orig = self.consumables@;
        let n: usize = self.consumables.len();
        let mut kept: Vec<ConsumableItem> = Vec::new();
        let mut i: usize = 0;
        while i < n
            invariant
                i <= n,
                n == self.consumables@.len(),
                self.consumables@ == orig,
                kept@ == surviving_sp(orig.subrange(0, i as int)),
            decreases n - i,
        {
            let c: ConsumableItem = *consumable_at(&self.consumables, i);
            proof {
                assert(orig.subrange(0, i + 1 as int).drop_last() =~= orig.subrange(0, i as int));
                assert(orig.subrange(0, i + 1 as int).last() == orig[i as int]);
            }
            if !c.consumable.is_despawn() {
                kept.push(c);
            }
            i = i + 1;
        }
        proof {
            assert(orig.subrange(0, n as int) =~= orig);
            lemma_surviving_props(orig, self.time_ms);
        }
        self.consumables = kept;
    }
}

/// `c` with only its replication cooldown changed.
pub open spec fn same_but_cooldown(a: ConsumableItem, c: ConsumableItem) -> bool {
    a == ConsumableItem { last_replication_ms: a.last_replication_ms, ..c }
}

impl World {
    /// Spatial-replication pass. A surviving consumable whose cooldown has
    /// elapsed attempts to spawn a sibling nearby: a random gate and a
    /// second gate biased against positions far from the world's centre
    /// must both pass; food replicates as food, poison as poison or, with
    /// its own probability, as food; each kind respects its bootstrap
    /// ceiling, and an attempt resets the parent's cooldown.
    pub fn replicate_consumables(&mut self)
        requires
            old(self).wf(),
        ensures
            final(self).wf(),
            final(self).consumables@.len() >= old(self).consumables@.len(),
            forall|j: int|
                0 <= j < old(self).consumables@.len() ==> same_but_cooldown(
                    #[trigger] final(self).consumables@[j],
                    old(self).consumables@[j],
                ),
            forall|j: int|
                0 <= j < old(self).consumables@.len() ==> (#[trigger] final(self).consumables@[j]).last_replication_ms
                    == old(self).consumables@[j].last_replication_ms || final(self).consumables@[j].last_replication_ms
                    == old(self).time_ms,
            forall|j: int|
                0 <= j < old(self).consumables@.len() && old(self).time_ms - (#[trigger] old(self).consumables@[j]).last_replication_ms
                    < REPLICATION_COOLDOWN_MS ==> final(self).consumables@[j] == old(self).consumables@[j],
            forall|k: int|
                old(self).consumables@.len() <= k < final(self).consumables@.len() ==> {
                    let c = #[trigger] final(self).consumables@[k];
                    &&& c.wf()
                    &&& in_world_sp(c.pos)
                    &&& (c.consumable.0 == crate::configs::FOOD_NUTRITION || c.consumable.0
                        == crate::configs::POISON_DAMAGE)
                    &&& replicated_from_sp(c, old(self).consumables@, old(self).time_ms)
                },
            count_food(final(self).consumables@) <= if count_food(old(self).consumables@)
                > NUM_FOOD {
                count_food(old(self).consumables@)
            } else {
                NUM_FOOD as int
            },
            count_poison(final(self).consumables@) <= if count_poison(old(self).consumables@)
                > NUM_POISON {
                count_poison(old(self).consumables@)
            } else {
                NUM_POISON as int
            },
            final(self).boids == old(self).boids,
            final(self).death_events == old(self).death_events,
            final(self).time_ms == old(self).time_ms,
            final(self).health_acc_ms == old(self).health_acc_ms,
            final(self).decay_acc_ms == old(self).decay_acc_ms,
            final(self).replication_acc_ms == old(self).replication_acc_ms,
            final(self).repopulate_acc_ms == old(self).repopulate_acc_ms,
    {
        let ghost orig = self.consumables@;
        let counts: (usize, usize) = count_consumable_kinds(&self.consumables);
        let mut cf: usize = counts.0;
        let mut cp: usize = counts.1;
        let n: usize = self.consumables.len();
        proof {
            lemma_consumable_counts_bounds(orig);
        }
        let ghost cf0 = count_food(orig);
        let ghost cp0 = count_poison(orig);
        let mut i: usize = 0;
        while i < n
            invariant
                i <= n,
                n == orig.len(),
                self.consumables@.len() >= n,
                cf0 == count_food(orig),
                cp0 == count_poison(orig),
                forall|j: int|
                    0 <= j < n ==> (#[trigger] orig[j]).wf() && orig[j].last_replication_ms
                        <= self.time_ms,
                forall|j: int|
                    0 <= j < i ==> same_but_cooldown(#[trigger] self.consumables@[j], orig[j])
                        && self.consumables@[j].wf() && self.consumables@[j].last_replication_ms
                        <= self.time_ms,
                forall|j: int|
                    0 <= j < i ==> (#[trigger] self.consumables@[j]).last_replication_ms
                        == orig[j].last_replication_ms || self.consumables@[j].last_replication_ms
                        == self.time_ms,
                forall|j: int|
                    0 <= j < i && self.time_ms - (#[trigger] orig[j]).last_replication_ms
                        < REPLICATION_COOLDOWN_MS ==> self.consumables@[j] == orig[j],
                forall|j: int| i <= j < n ==> #[trigger] self.consumables@[j] == orig[j],
                cf == count_food(self.consumables@),
                cp == count_poison(self.consumables@),
                cf <= if cf0 > NUM_FOOD {
                    cf0
                } else {
                    NUM_FOOD as int
                },
                cp <= if cp0 > NUM_POISON {
                    cp0
                } else {
                    NUM_POISON as int
                },
                forall|k: int|
                    n <= k < self.consumables@.len() ==> {
                        let c = #[trigger] self.consumables@[k];
                        &&& c.wf()
                        &&& in_world_sp(c.pos)
                        &&& c.last_replication_ms <= self.time_ms
                        &&& (c.consumable.0 == crate::configs::FOOD_NUTRITION || c.consumable.0
                            == crate::configs::POISON_DAMAGE)
                        &&& replicated_from_sp(c, orig, self.time_ms)
                    },
                self.boids == old(self).boids,
                self.death_events == old(self).death_events,
                self.time_ms == old(self).time_ms,
                self.health_acc_ms == old(self).health_acc_ms,
                self.decay_acc_ms == old(self).decay_acc_ms,
                self.replication_acc_ms == old(self).replication_acc_ms,
                self.repopulate_acc_ms == old(self).repopulate_acc_ms,
            decreases n - i,
        {
            let c: ConsumableItem = *consumable_at(&self.consumables, i);
            if self.time_ms - c.last_replication_ms >= REPLICATION_COOLDOWN_MS {
                let gate1: i64 = rand_i64(0, PROB_ONE);
                if gate1 >= CONSUMABLE_REPLICATE_GATE {
                    let d: i64 = dist_sq(c.pos, Vec2Fx { x: 0, y: 0 });
                    let gate2: i64 = rand_i64(0, PROB_ONE);
                    if gate2 * 10_000_000_000 >= d {
                        let is_food: bool = c.consumable.is_food();
                        let radius: i64 = if is_food {
                            REPLICATION_RADIUS_FOOD
                        } else {
                            REPLICATION_RADIUS_POISON
                        };
                        let ox: i64 = rand_i64(-radius, radius);
                        let oy: i64 = rand_i64(-radius, radius);
                        let (x, y): (i64, i64) = limit_to_world((c.pos.x + ox, c.pos.y + oy));
                        let pos = Vec2Fx { x, y };
                        let spawn_food: bool = if is_food {
                            true
                        } else {
                            let gate3: i64 = rand_i64(0, PROB_ONE);
                            gate3 < POISON_KEEPS_KIND_GATE
                        };
                        if spawn_food {
                            if cf < NUM_FOOD {
                                let item: ConsumableItem = ConsumableItem::new_food(
                                    pos,
                                    self.time_ms,
                                );
                                proof {
                                    lemma_consumable_counts_push(self.consumables@, item);
                                    assert(scattered_near_sp(
                                        item,
                                        orig[i as int].pos,
                                        ox as int,
                                        oy as int,
                                        replication_radius_sp(orig[i as int]),
                                    ));
                                    assert(replicated_from_sp(item, orig, self.time_ms));
                                }
                                self.consumables.push(item);
                                cf = cf + 1;
                            }
                        } else {
                            if cp < NUM_POISON {
                                let item: ConsumableItem = ConsumableItem::new_poison(
                                    pos,
                                    self.time_ms,
                                );
                                proof {
                                    lemma_consumable_counts_push(self.consumables@, item);
                                    assert(scattered_near_sp(
                                        item,
                                        orig[i as int].pos,
                                        ox as int,
                                        oy as int,
                                        replication_radius_sp(orig[i as int]),
                                    ));
                                    assert(replicated_from_sp(item, orig, self.time_ms));
                                }
                                self.consumables.push(item);
                                cp = cp + 1;
                            }
                        }
                        let nc: ConsumableItem = ConsumableItem {
                            last_replication_ms: self.time_ms,
                            ..c
                        };
                        proof {
                            lemma_consumable_counts_update(self.consumables@, i as int, nc);
                        }
                        let m: &mut ConsumableItem = vstd::std_specs::vec::vec_index_mut(
                            &mut self.consumables,
                            i,
                        );
                        *m = nc;
                    }
                }
            }
            i = i + 1;
        }
    }

    /// Bootstrap and extinction recovery: an empty prey population is
    /// refilled to `NUM_BOIDS` agents with fresh random genomes at random
    /// positions, and an empty predator population to `NUM_PREDATORS`.
    pub fn populate_boids(&mut self)
        requires
            old(self).wf(),
        ensures
            final(self).wf(),
            count_boids(final(self).boids@) == if count_boids(old(self).boids@) == 0 {
                NUM_BOIDS as int
            } else {
                count_boids(old(self).boids@)
            },
            count_predators(final(self).boids@) == if count_predators(old(self).boids@) == 0 {
                NUM_PREDATORS as int
            } else {
                count_predators(old(self).boids@)
            },
            forall|j: int|
                0 <= j < old(self).boids@.len() ==> #[trigger] final(self).boids@[j] == old(
                    self,
                ).boids@[j],
            forall|k: int|
                old(self).boids@.len() <= k < final(self).boids@.len() ==> {
                    let c = #[trigger] final(self).boids@[k];
                    &&& c.wf()
                    &&& in_world_sp(c.pos)
                    &&& c.health == BOID_MAX_HEALTH
                    &&& c.birth_ms == old(self).time_ms
                    &&& c.replicate_elapsed_ms == 0
                    &&& crate::boid::dna_in_init_ranges(c.dna)
                    &&& match c.predator_dna {
                        Option::Some(p) => crate::boid::predator_dna_in_init_ranges(p),
                        Option::None => true,
                    }
                },
            final(self).consumables == old(self).consumables,
            final(self).death_events == old(self).death_events,
            final(self).time_ms == old(self).time_ms,
            final(self).health_acc_ms == old(self).health_acc_ms,
            final(self).decay_acc_ms == old(self).decay_acc_ms,
            final(self).replication_acc_ms == old(self).replication_acc_ms,
            final(self).repopulate_acc_ms == old(self).repopulate_acc_ms,
    {
        let counts: (usize, usize) = count_kinds(&self.boids);
        let ghost orig = self.boids@;
        if counts.0 == 0 {
            let mut k: usize = 0;
            while k < NUM_BOIDS
                invariant
                    k <= NUM_BOIDS,
                    self.boids@.len() >= orig.len(),
                    forall|j: int| 0 <= j < orig.len() ==> #[trigger] self.boids@[j] == orig[j],
                    forall|j: int|
                        orig.len() <= j < self.boids@.len() ==> {
                            let c = #[trigger] self.boids@[j];
                            &&& c.wf()
                            &&& in_world_sp(c.pos)
                            &&& c.health == BOID_MAX_HEALTH
                            &&& c.birth_ms == self.time_ms
                            &&& c.replicate_elapsed_ms == 0
                            &&& crate::boid::dna_in_init_ranges(c.dna)
                            &&& match c.predator_dna {
                                Option::Some(p) => crate::boid::predator_dna_in_init_ranges(p),
                                Option::None => true,
                            }
                        },
                    count_boids(self.boids@) == count_boids(orig) + k,
                    count_predators(self.boids@) == count_predators(orig),
                    self.consumables == old(self).consumables,
                    self.death_events == old(self).death_events,
                    self.time_ms == old(self).time_ms,
                    self.health_acc_ms == old(self).health_acc_ms,
                    self.decay_acc_ms == old(self).decay_acc_ms,
                    self.replication_acc_ms == old(self).replication_acc_ms,
                    self.repopulate_acc_ms == old(self).repopulate_acc_ms,
                decreases NUM_BOIDS - k,
            {
                let x: i64 = rand_i64(-WORLD_W, WORLD_W);
                let y: i64 = rand_i64(-WORLD_H, WORLD_H);
                let b: Boid = crate::boid::Boid::spawn(
                    Vec2Fx { x, y },
                    Dna::rand(),
                    None,
                    self.time_ms,
                );
                proof {
                    lemma_counts_push(self.boids@, b);
                }
                self.boids.push(b);
                k = k + 1;
            }
        }
        let ghost mid = self.boids@;
        if counts.1 == 0 {
            let mut k: usize = 0;
            while k < NUM_PREDATORS
                invariant
                    k <= NUM_PREDATORS,
                    self.boids@.len() >= mid.len(),
                    mid.len() >= orig.len(),
                    forall|j: int| 0 <= j < mid.len() ==> #[trigger] self.boids@[j] == mid[j],
                    forall|j: int| 0 <= j < orig.len() ==> #[trigger] mid[j] == orig[j],
                    forall|j: int|
                        orig.len() <= j < mid.len() ==> {
                            let c = #[trigger] mid[j];
                            &&& c.wf()
                            &&& in_world_sp(c.pos)
                            &&& c.health == BOID_MAX_HEALTH
                            &&& c.birth_ms == self.time_ms
                            &&& c.replicate_elapsed_ms == 0
                            &&& crate::boid::dna_in_init_ranges(c.dna)
                            &&& match c.predator_dna {
                                Option::Some(p) => crate::boid::predator_dna_in_init_ranges(p),
                                Option::None => true,
                            }
                        },
                    forall|j: int|
                        mid.len() <= j < self.boids@.len() ==> {
                            let c = #[trigger] self.boids@[j];
                            &&& c.wf()
                            &&& in_world_sp(c.pos)
                            &&& c.health == BOID_MAX_HEALTH
                            &&& c.birth_ms == self.time_ms
                            &&& c.replicate_elapsed_ms == 0
                            &&& crate::boid::dna_in_init_ranges(c.dna)
                            &&& match c.predator_dna {
                                Option::Some(p) => crate::boid::predator_dna_in_init_ranges(p),
                                Option::None => true,
                            }
                        },
                    count_boids(self.boids@) == count_boids(mid),
                    count_predators(self.boids@) == count_predators(mid) + k,
                    self.consumables == old(self).consumables,
                    self.death_events == old(self).death_events,
                    self.time_ms == old(self).time_ms,
                    self.health_acc_ms == old(self).health_acc_ms,
                    self.decay_acc_ms == old(self).decay_acc_ms,
                    self.replication_acc_ms == old(self).replication_acc_ms,
                    self.repopulate_acc_ms == old(self).repopulate_acc_ms,
                decreases NUM_PREDATORS - k,
            {
                let x: i64 = rand_i64(-WORLD_W, WORLD_W);
                let y: i64 = rand_i64(-WORLD_H, WORLD_H);
                let b: Boid = crate::boid::Boid::spawn(
                    Vec2Fx { x, y },
                    Dna::rand(),
                    Some(PredatorDna::rand()),
                    self.time_ms,
                );
                proof {
                    lemma_counts_push(self.boids@, b);
                }
                self.boids.push(b);
                k = k + 1;
            }
        }
    }

    /// Bootstrap: spawns `NUM_FOOD` food and `NUM_POISON` poison items at
    /// uniform random positions inside the arena.
    pub fn populate_consumables(&mut self)
        requires
            old(self).wf(),
        ensures
            final(self).wf(),
            final(self).consumables@.len() == old(self).consumables@.len() + NUM_FOOD
                + NUM_POISON,
            count_food(final(self).consumables@) == count_food(old(self).consumables@)
                + NUM_FOOD,
            count_poison(final(self).consumables@) == count_poison(old(self).consumables@)
                + NUM_POISON,
            forall|j: int|
                0 <= j < old(self).consumables@.len() ==> #[trigger] final(self).consumables@[j]
                    == old(self).consumables@[j],
            forall|k: int|
                old(self).consumables@.len() <= k < old(self).consumables@.len() + NUM_FOOD
                    ==> (#[trigger] final(self).consumables@[k]).consumable.0
                    == crate::configs::FOOD_NUTRITION && in_world_sp(
                    final(self).consumables@[k].pos,
                ) && final(self).consumables@[k].last_replication_ms == old(self).time_ms,
            forall|k: int|
                old(self).consumables@.len() + NUM_FOOD <= k < final(self).consumables@.len()
                    ==> (#[trigger] final(self).consumables@[k]).consumable.0
                    == crate::configs::POISON_DAMAGE && in_world_sp(
                    final(self).consumables@[k].pos,
                ) && final(self).consumables@[k].last_replication_ms == old(self).time_ms,
            final(self).boids == old(self).boids,
            final(self).death_events == old(self).death_events,
            final(self).time_ms == old(self).time_ms,
            final(self).health_acc_ms == old(self).health_acc_ms,
            final(self).decay_acc_ms == old(self).decay_acc_ms,
            final(self).replication_acc_ms == old(self).replication_acc_ms,
            final(self).repopulate_acc_ms == old(self).repopulate_acc_ms,
    {
        let ghost orig = self.consumables@;
        let mut k: usize = 0;
        while k < NUM_FOOD
            invariant
                k <= NUM_FOOD,
                self.consumables@.len() == orig.len() + k,
                forall|j: int| 0 <= j < orig.len() ==> #[trigger] self.consumables@[j] == orig[j],
                forall|j: int|
                    orig.len() <= j < self.consumables@.len()
                        ==> (#[trigger] self.consumables@[j]).wf()
                        && self.consumables@[j].last_replication_ms == self.time_ms
                        && self.consumables@[j].consumable.0 == crate::configs::FOOD_NUTRITION
                        && in_world_sp(self.consumables@[j].pos),
                count_food(self.consumables@) == count_food(orig) + k,
                count_poison(self.consumables@) == count_poison(orig),
                self.boids == old(self).boids,
                self.death_events == old(self).death_events,
                self.time_ms == old(self).time_ms,
                self.health_acc_ms == old(self).health_acc_ms,
                self.decay_acc_ms == old(self).decay_acc_ms,
                self.replication_acc_ms == old(self).replication_acc_ms,
                self.repopulate_acc_ms == old(self).repopulate_acc_ms,
            decreases NUM_FOOD - k,
        {
            let x: i64 = rand_i64(-WORLD_W, WORLD_W);
            let y: i64 = rand_i64(-WORLD_H, WORLD_H);
            let item: ConsumableItem = ConsumableItem::new_food(Vec2Fx { x, y }, self.time_ms);
            proof {
                lemma_consumable_counts_push(self.consumables@, item);
            }
            self.consumables.push(item);
            k = k + 1;
        }
        let ghost mid = self.consumables@;
        let mut k2: usize = 0;
        while k2 < NUM_POISON
            invariant
                k2 <= NUM_POISON,
                self.consumables@.len() == mid.len() + k2,
                mid.len() == orig.len() + NUM_FOOD,
                forall|j: int| 0 <= j < mid.len() ==> #[trigger] self.consumables@[j] == mid[j],
                forall|j: int| 0 <= j < orig.len() ==> #[trigger] mid[j] == orig[j],
                forall|j: int|
                    orig.len() <= j < mid.len() ==> (#[trigger] mid[j]).wf()
                        && mid[j].last_replication_ms == self.time_ms && mid[j].consumable.0
                        == crate::configs::FOOD_NUTRITION && in_world_sp(mid[j].pos),
                forall|j: int|
                    mid.len() <= j < self.consumables@.len()
                        ==> (#[trigger] self.consumables@[j]).wf()
                        && self.consumables@[j].last_replication_ms == self.time_ms
                        && self.consumables@[j].consumable.0 == crate::configs::POISON_DAMAGE
                        && in_world_sp(self.consumables@[j].pos),
                count_food(self.consumables@) == count_food(mid),
                count_poison(self.consumables@) == count_poison(mid) + k2,
                self.boids == old(self).boids,
                self.death_events == old(self).death_events,
                self.time_ms == old(self).time_ms,
                self.health_acc_ms == old(self).health_acc_ms,
                self.decay_acc_ms == old(self).decay_acc_ms,
                self.replication_acc_ms == old(self).replication_acc_ms,
                self.repopulate_acc_ms == old(self).repopulate_acc_ms,
            decreases NUM_POISON - k2,
        {
            let x: i64 = rand_i64(-WORLD_W, WORLD_W);
            let y: i64 = rand_i64(-WORLD_H, WORLD_H);
            let item: ConsumableItem = ConsumableItem::new_poison(Vec2Fx { x, y }, self.time_ms);
            proof {
                lemma_consumable_counts_push(self.consumables@, item);
            }
            self.consumables.push(item);
            k2 = k2 + 1;
        }
    }
}

// ------------------------------------------------------------------
// Scheduler.
//
// The relations below restate each pass's contract as a two-state
// predicate over the entity store (agents, consumables, death events and
// the clock; the cadence accumulators are the scheduler's own and are
// pinned by `tick` directly). `tick` chains them through a trace of
// intermediate states, so its contract carries the whole fixed pipeline
// of spec-level pass relations.
pub open spec fn same_entities(a: World, b: World) -> bool {
    &&& b.boids == a.boids
    &&& b.consumables == a.consumables
    &&& b.death_events == a.death_events
    &&& b.time_ms == a.time_ms
}

pub open spec fn movement_pass_rel(a: World, b: World) -> bool {
    &&& b.boids@.len() == a.boids@.len()
    &&& (forall|i: int|
        0 <= i < a.boids@.len() ==> b.boids@[i] == integrate_sp(#[trigger] a.boids@[i]))
    &&& b.consumables == a.consumables
    &&& b.death_events == a.death_events
    &&& b.time_ms == a.time_ms
}

pub open spec fn boundary_pass_rel(a: World, b: World) -> bool {
    &&& b.boids@.len() == a.boids@.len()
    &&& (forall|i: int|
        0 <= i < a.boids@.len() ==> b.boids@[i] == boundary_step_sp(#[trigger] a.boids@[i]))
    &&& b.consumables == a.consumables
    &&& b.death_events == a.death_events
    &&& b.time_ms == a.time_ms
}

pub open spec fn prey_steering_pass_rel(a: World, b: World) -> bool {
    &&& b.boids@.len() == a.boids@.len()
    &&& (forall|i: int|
        0 <= i < a.boids@.len() ==> b.boids@[i] == steer_step_sp(
            #[trigger] a.boids@[i],
            food_positions_sp(a.consumables@),
            poison_positions_sp(a.consumables@),
            predator_positions_sp(a.boids@),
        ))
    &&& b.consumables == a.consumables
    &&& b.death_events == a.death_events
    &&& b.time_ms == a.time_ms
}

pub open spec fn predator_steering_pass_rel(a: World, b: World) -> bool {
    &&& b.boids@.len() == a.boids@.len()
    &&& (forall|i: int|
        0 <= i < a.boids@.len() ==> b.boids@[i] == predator_steer_step_sp(
            #[trigger] a.boids@[i],
            boid_positions_sp(a.boids@),
        ))
    &&& b.consumables == a.consumables
    &&& b.death_events == a.death_events
    &&& b.time_ms == a.time_ms
}

pub open spec fn separation_pass_rel(a: World, b: World) -> bool {
    &&& b.boids@.len() == a.boids@.len()
    &&& (forall|i: int|
        0 <= i < a.boids@.len() ==> b.boids@[i] == sep_step_sp(
            #[trigger] a.boids@[i],
            all_positions_sp(a.boids@),
        ))
    &&& b.consumables == a.consumables
    &&& b.death_events == a.death_events
    &&& b.time_ms == a.time_ms
}

pub open spec fn consumption_pass_rel(a: World, b: World) -> bool {
    let r = consume_fold_sp(a.boids@, a.consumables@, a.boids@.len() as int);
    &&& b.boids@ == r.0
    &&& b.consumables@ == r.1
    &&& b.death_events == a.death_events
    &&& b.time_ms == a.time_ms
}

pub open spec fn predation_pass_rel(a: World, b: World) -> bool {
    let r = predation_fold_sp(
        a.boids@,
        Seq::new(a.boids@.len(), |k: int| false),
        a.death_events@,
        a.boids@.len() as int,
    );
    &&& b.boids@ == mask_filter_sp(r.0, r.1)
    &&& b.death_events@ == r.2
    &&& b.consumables == a.consumables
    &&& b.time_ms == a.time_ms
}

pub open spec fn prey_replication_pass_rel(a: World, b: World, dt: u64) -> bool {
    &&& b.boids@.len() == a.boids@.len() + count_boids(b.boids@) - count_boids(a.boids@)
    &&& count_predators(b.boids@) == count_predators(a.boids@)
    &&& count_boids(b.boids@) <= NUM_BOIDS
    &&& count_boids(b.boids@) >= count_boids(a.boids@)
    &&& (count_boids(a.boids@) < NUM_BOIDS && (exists|j: int|
        0 <= j < a.boids@.len() && boid_replication_due(#[trigger] a.boids@[j], dt))
        ==> count_boids(b.boids@) > count_boids(a.boids@))
    &&& (forall|j: int|
        0 <= j < a.boids@.len() ==> same_but_timer(#[trigger] b.boids@[j], a.boids@[j]))
    &&& (forall|j: int|
        0 <= j < a.boids@.len() && (#[trigger] a.boids@[j]).is_predator() ==> b.boids@[j]
            == a.boids@[j])
    &&& (forall|j: int|
        0 <= j < a.boids@.len() ==> (#[trigger] b.boids@[j]).replicate_elapsed_ms
            == a.boids@[j].replicate_elapsed_ms || b.boids@[j].replicate_elapsed_ms
            == timer_advance_sp(a.boids@[j].replicate_elapsed_ms, dt))
    &&& (forall|j: int|
        0 <= j < a.boids@.len() && boid_replication_due(#[trigger] a.boids@[j], dt)
            ==> b.boids@[j].replicate_elapsed_ms == timer_advance_sp(
            a.boids@[j].replicate_elapsed_ms,
            dt,
        ))
    &&& (forall|k: int|
        a.boids@.len() <= k < b.boids@.len() ==> {
            let c = #[trigger] b.boids@[k];
            &&& c.wf()
            &&& !c.is_predator()
            &&& c.health == BOID_MAX_HEALTH
            &&& c.birth_ms == a.time_ms
            &&& c.replicate_elapsed_ms == 0
            &&& c.acc == Vec2Fx::zero_sp()
            &&& exists|j: int|
                0 <= j < a.boids@.len() && !(#[trigger] a.boids@[j]).is_predator() && c.pos
                    == a.boids@[j].pos && a.boids@[j].replicate_elapsed_ms + dt
                    >= BOID_REPLICATE_INTERVAL_MS && exists|d: MutationDeltas|
                    d.wf() && c.dna == a.boids@[j].dna.apply_mutation_sp(d)
        })
    &&& b.consumables == a.consumables
    &&& b.death_events == a.death_events
    &&& b.time_ms == a.time_ms
}

pub open spec fn predator_replication_pass_rel(a: World, b: World, dt: u64) -> bool {
    &&& b.boids@.len() == a.boids@.len() + count_predators(b.boids@) - count_predators(
        a.boids@,
    )
    &&& count_boids(b.boids@) == count_boids(a.boids@)
    &&& count_predators(b.boids@) <= NUM_PREDATORS
    &&& count_predators(b.boids@) >= count_predators(a.boids@)
    &&& (count_predators(a.boids@) < NUM_PREDATORS && (exists|j: int|
        0 <= j < a.boids@.len() && predator_replication_due(#[trigger] a.boids@[j], dt))
        ==> count_predators(b.boids@) > count_predators(a.boids@))
    &&& (forall|j: int|
        0 <= j < a.boids@.len() ==> same_but_timer(#[trigger] b.boids@[j], a.boids@[j]))
    &&& (forall|j: int|
        0 <= j < a.boids@.len() && !(#[trigger] a.boids@[j]).is_predator() ==> b.boids@[j]
            == a.boids@[j])
    &&& (forall|j: int|
        0 <= j < a.boids@.len() ==> (#[trigger] b.boids@[j]).replicate_elapsed_ms
            == a.boids@[j].replicate_elapsed_ms || b.boids@[j].replicate_elapsed_ms
            == timer_advance_sp(a.boids@[j].replicate_elapsed_ms, dt))
    &&& (forall|j: int|
        0 <= j < a.boids@.len() && predator_replication_due(#[trigger] a.boids@[j], dt)
            ==> b.boids@[j].replicate_elapsed_ms == timer_advance_sp(
            a.boids@[j].replicate_elapsed_ms,
            dt,
        ))
    &&& (forall|k: int|
        a.boids@.len() <= k < b.boids@.len() ==> {
            let c = #[trigger] b.boids@[k];
            &&& c.wf()
            &&& c.is_predator()
            &&& c.health == BOID_MAX_HEALTH
            &&& c.birth_ms == a.time_ms
            &&& c.replicate_elapsed_ms == 0
            &&& c.acc == Vec2Fx::zero_sp()
            &&& exists|j: int|
                0 <= j < a.boids@.len() && (#[trigger] a.boids@[j]).is_predator() && c.pos
                    == a.boids@[j].pos && a.boids@[j].replicate_elapsed_ms + dt
                    >= BOID_REPLICATE_INTERVAL_MS && (exists|d: MutationDeltas|
                    d.wf() && c.dna == a.boids@[j].dna.apply_mutation_sp(d)) && (exists|
                    pd: PredatorDeltas,
                    pp: PredatorDna,
                |
                    pd.wf() && a.boids@[j].predator_dna == Option::Some(pp) && c.predator_dna
                        == Option::Some(pp.apply_mutation_sp(pd)))
        })
    &&& b.consumables == a.consumables
    &&& b.death_events == a.death_events
    &&& b.time_ms == a.time_ms
}

pub open spec fn health_tick_pass_rel(a: World, b: World) -> bool {
    &&& b.boids@.len() == a.boids@.len()
    &&& (forall|i: int|
        0 <= i < a.boids@.len() ==> b.boids@[i] == health_tick_sp(#[trigger] a.boids@[i]))
    &&& b.consumables == a.consumables
    &&& b.death_events == a.death_events
    &&& b.time_ms == a.time_ms
}

pub open spec fn death_pass_rel(a: World, b: World) -> bool {
    &&& b.boids@ == alive_sp(a.boids@)
    &&& b.death_events@ == a.death_events@ + dead_positions_sp(a.boids@)
    &&& b.consumables == a.consumables
    &&& b.time_ms == a.time_ms
}

pub open spec fn reseed_pass_rel(a: World, b: World) -> bool {
    &&& b.boids == a.boids
    &&& b.death_events@.len() == 0
    &&& b.consumables@.len() >= a.consumables@.len() + 2 * a.death_events@.len()
    &&& b.consumables@.len() <= a.consumables@.len() + 4 * a.death_events@.len()
    &&& (forall|i: int|
        0 <= i < a.consumables@.len() ==> #[trigger] b.consumables@[i] == a.consumables@[i])
    &&& (forall|i: int|
        a.consumables@.len() <= i < b.consumables@.len() ==> {
            let c = #[trigger] b.consumables@[i];
            &&& c.wf()
            &&& in_world_sp(c.pos)
            &&& (c.consumable.0 == crate::configs::FOOD_NUTRITION || c.consumable.0
                == crate::configs::POISON_DAMAGE)
            &&& scattered_from_sp(c, a.death_events@)
        })
    &&& b.time_ms == a.time_ms
}

pub open spec fn decay_pass_rel(a: World, b: World) -> bool {
    &&& b.consumables@.len() == a.consumables@.len()
    &&& (forall|i: int|
        0 <= i < a.consumables@.len() ==> b.consumables@[i] == (ConsumableItem {
            consumable: (#[trigger] a.consumables@[i]).consumable.decay_sp(),
            ..a.consumables@[i]
        }))
    &&& b.boids == a.boids
    &&& b.death_events == a.death_events
    &&& b.time_ms == a.time_ms
}

pub open spec fn consumable_despawn_pass_rel(a: World, b: World) -> bool {
    &&& b.consumables@ == surviving_sp(a.consumables@)
    &&& b.boids == a.boids
    &&& b.death_events == a.death_events
    &&& b.time_ms == a.time_ms
}

pub open spec fn consumable_replication_pass_rel(a: World, b: World) -> bool {
    &&& b.consumables@.len() >= a.consumables@.len()
    &&& (forall|j: int|
        0 <= j < a.consumables@.len() ==> same_but_cooldown(
            #[trigger] b.consumables@[j],
            a.consumables@[j],
        ))
    &&& (forall|j: int|
        0 <= j < a.consumables@.len() ==> (#[trigger] b.consumables@[j]).last_replication_ms
            == a.consumables@[j].last_replication_ms || b.consumables@[j].last_replication_ms
            == a.time_ms)
    &&& (forall|j: int|
        0 <= j < a.consumables@.len() && a.time_ms - (#[trigger] a.consumables@[j]).last_replication_ms
            < REPLICATION_COOLDOWN_MS ==> b.consumables@[j] == a.consumables@[j])
    &&& (forall|k: int|
        a.consumables@.len() <= k < b.consumables@.len() ==> {
            let c = #[trigger] b.consumables@[k];
            &&& c.wf()
            &&& in_world_sp(c.pos)
            &&& (c.consumable.0 == crate::configs::FOOD_NUTRITION || c.consumable.0
                == crate::configs::POISON_DAMAGE)
            &&& replicated_from_sp(c, a.consumables@, a.time_ms)
        })
    &&& count_food(b.consumables@) <= if count_food(a.consumables@) > NUM_FOOD {
        count_food(a.consumables@)
    } else {
        NUM_FOOD as int
    }
    &&& count_poison(b.consumables@) <= if count_poison(a.consumables@) > NUM_POISON {
        count_poison(a.consumables@)
    } else {
        NUM_POISON as int
    }
    &&& b.boids == a.boids
    &&& b.death_events == a.death_events
    &&& b.time_ms == a.time_ms
}

pub open spec fn repopulate_pass_rel(a: World, b: World) -> bool {
    &&& count_boids(b.boids@) == if count_boids(a.boids@) == 0 {
        NUM_BOIDS as int
    } else {
        count_boids(a.boids@)
    }
    &&& count_predators(b.boids@) == if count_predators(a.boids@) == 0 {
        NUM_PREDATORS as int
    } else {
        count_predators(a.boids@)
    }
    &&& (forall|j: int| 0 <= j < a.boids@.len() ==> #[trigger] b.boids@[j] == a.boids@[j])
    &&& b.consumables == a.consumables
    &&& b.death_events == a.death_events
    &&& b.time_ms == a.time_ms
}

/// The intermediate entity states one tick passes through, in pipeline
/// order.
pub ghost struct TickTrace {
    pub after_movement: World,
    pub after_boundary: World,
    pub after_prey_steering: World,
    pub after_predator_steering: World,
    pub after_separation: World,
    pub after_consumption: World,
    pub after_predation: World,
    pub after_prey_replication: World,
    pub after_predator_replication: World,
    pub after_health_tick: World,
    pub after_death: World,
    pub after_reseed: World,
    pub after_decay: World,
    pub after_consumable_despawn: World,
    pub after_consumable_replication: World,
    pub after_repopulate: World,
}

/// One tick takes the world from `w0` through `t`'s intermediate states
/// to the entity state of `w9`: every pass relation holds between its
/// neighbours, in the fixed pipeline order, with the slower-cadence
/// passes running exactly when due.
pub open spec fn tick_trace_ok(w0: World, t: TickTrace, w9: World, dt: u64) -> bool {
    &&& movement_pass_rel(w0, t.after_movement)
    &&& boundary_pass_rel(t.after_movement, t.after_boundary)
    &&& prey_steering_pass_rel(t.after_boundary, t.after_prey_steering)
    &&& predator_steering_pass_rel(t.after_prey_steering, t.after_predator_steering)
    &&& separation_pass_rel(t.after_predator_steering, t.after_separation)
    &&& consumption_pass_rel(t.after_separation, t.after_consumption)
    &&& predation_pass_rel(t.after_consumption, t.after_predation)
    &&& prey_replication_pass_rel(t.after_predation, t.after_prey_replication, dt)
    &&& predator_replication_pass_rel(
        t.after_prey_replication,
        t.after_predator_replication,
        dt,
    )
    &&& if w0.health_acc_ms + dt >= HEALTH_TICK_MS {
        health_tick_pass_rel(t.after_predator_replication, t.after_health_tick)
    } else {
        same_entities(t.after_predator_replication, t.after_health_tick)
    }
    &&& death_pass_rel(t.after_health_tick, t.after_death)
    &&& reseed_pass_rel(t.after_death, t.after_reseed)
    &&& if w0.decay_acc_ms + dt >= CONSUMABLE_DECAY_MS {
        decay_pass_rel(t.after_reseed, t.after_decay)
    } else {
        same_entities(t.after_reseed, t.after_decay)
    }
    &&& consumable_despawn_pass_rel(t.after_decay, t.after_consumable_despawn)
    &&& if w0.replication_acc_ms + dt >= CONSUMABLE_REPLICATION_MS {
        consumable_replication_pass_rel(
            t.after_consumable_despawn,
            t.after_consumable_replication,
        )
    } else {
        same_entities(t.after_consumable_despawn, t.after_consumable_replication)
    }
    &&& if w0.repopulate_acc_ms + dt >= REPOPULATE_MS {
        repopulate_pass_rel(t.after_consumable_replication, t.after_repopulate)
    } else {
        same_entities(t.after_consumable_replication, t.after_repopulate)
    }
    &&& w9.boids == t.after_repopulate.boids
    &&& w9.consumables == t.after_repopulate.consumables
    &&& w9.death_events == t.after_repopulate.death_events
}
impl World {
    /// World bootstrap: the full starting population of boids, predators,
    /// food and poison.
    pub fn bootstrap(&mut self)
        requires
            old(self).wf(),
        ensures
            final(self).wf(),
            count_boids(final(self).boids@) == if count_boids(old(self).boids@) == 0 {
                NUM_BOIDS as int
            } else {
                count_boids(old(self).boids@)
            },
            count_predators(final(self).boids@) == if count_predators(old(self).boids@) == 0 {
                NUM_PREDATORS as int
            } else {
                count_predators(old(self).boids@)
            },
            count_food(final(self).consumables@) == count_food(old(self).consumables@)
                + NUM_FOOD,
            count_poison(final(self).consumables@) == count_poison(old(self).consumables@)
                + NUM_POISON,
            final(self).time_ms == old(self).time_ms,
    {
        self.populate_boids();
        self.populate_consumables();
    }

    /// One scheduler tick: the fixed ordered pass pipeline, advanced by
    /// `dt_ms` milliseconds of wall-clock time. Movement runs before
    /// collision and consumption, which run before death despawning,
    /// which runs before event-driven reseeding; the slower-cadence
    /// passes (health tick, decay, consumable replication, extinction
    /// recovery) fire when their accumulated time crosses their period.
    /// Populations never exceed their caps.
    #[verifier::rlimit(100)]
    pub fn tick(&mut self, dt_ms: u64)
        requires
            old(self).wf(),
            dt_ms <= DT_MAX_MS,
        ensures
            final(self).wf(),
            count_boids(final(self).boids@) <= NUM_BOIDS,
            count_predators(final(self).boids@) <= NUM_PREDATORS,
            final(self).death_events@.len() == 0,
            exists|t: TickTrace| #[trigger] tick_trace_ok(*old(self), t, *final(self), dt_ms),
            final(self).time_ms == if old(self).time_ms > u64::MAX - dt_ms {
                u64::MAX as int
            } else {
                old(self).time_ms + dt_ms
            },
            final(self).health_acc_ms == if old(self).health_acc_ms + dt_ms >= HEALTH_TICK_MS {
                (old(self).health_acc_ms + dt_ms) % (HEALTH_TICK_MS as int)
            } else {
                old(self).health_acc_ms + dt_ms
            },
            final(self).decay_acc_ms == if old(self).decay_acc_ms + dt_ms
                >= CONSUMABLE_DECAY_MS {
                (old(self).decay_acc_ms + dt_ms) % (CONSUMABLE_DECAY_MS as int)
            } else {
                old(self).decay_acc_ms + dt_ms
            },
            final(self).replication_acc_ms == if old(self).replication_acc_ms + dt_ms
                >= CONSUMABLE_REPLICATION_MS {
                (old(self).replication_acc_ms + dt_ms) % (CONSUMABLE_REPLICATION_MS as int)
            } else {
                old(self).replication_acc_ms + dt_ms
            },
            final(self).repopulate_acc_ms == if old(self).repopulate_acc_ms + dt_ms
                >= REPOPULATE_MS {
                (old(self).repopulate_acc_ms + dt_ms) % (REPOPULATE_MS as int)
            } else {
                old(self).repopulate_acc_ms + dt_ms
            },
    {
        self.update_boid_transform();
        let ghost t1 = *self;
        self.boundary_boids_direction_update();
        let ghost t2 = *self;
        self.update_boid_direction();
        let ghost t3 = *self;
        self.update_predator_direction();
        let ghost t4 = *self;
        self.boid_separation();
        let ghost t5 = *self;
        self.handle_boid_collision();
        let ghost t6 = *self;
        self.handle_predator_collision();
        let ghost t7 = *self;
        self.boids_replicate(dt_ms);
        let ghost t8 = *self;
        self.predators_replicate(dt_ms);
        let ghost t9 = *self;
        let hacc: u64 = self.health_acc_ms + dt_ms;
        if hacc >= HEALTH_TICK_MS {
            self.health_acc_ms = hacc % HEALTH_TICK_MS;
            self.boid_health_tick();
        } else {
            self.health_acc_ms = hacc;
        }
        let ghost t10 = *self;
        self.despawn_boids();
        let ghost t11 = *self;
        self.handle_boid_despawn_events();
        let ghost t12 = *self;
        let dacc: u64 = self.decay_acc_ms + dt_ms;
        if dacc >= CONSUMABLE_DECAY_MS {
            self.decay_acc_ms = dacc % CONSUMABLE_DECAY_MS;
            self.decay_consumables();
        } else {
            self.decay_acc_ms = dacc;
        }
        let ghost t13 = *self;
        self.despawn_consumables();
        let ghost t14 = *self;
        let racc: u64 = self.replication_acc_ms + dt_ms;
        if racc >= CONSUMABLE_REPLICATION_MS {
            self.replication_acc_ms = racc % CONSUMABLE_REPLICATION_MS;
            self.replicate_consumables();
        } else {
            self.replication_acc_ms = racc;
        }
        let ghost t15 = *self;
        let pacc: u64 = self.repopulate_acc_ms + dt_ms;
        if pacc >= REPOPULATE_MS {
            self.repopulate_acc_ms = pacc % REPOPULATE_MS;
            self.populate_boids();
        } else {
            self.repopulate_acc_ms = pacc;
        }
        let ghost t16 = *self;
        self.time_ms = if self.time_ms > u64::MAX - dt_ms {
            u64::MAX
        } else {
            self.time_ms + dt_ms
        };
        proof {
            let trace = TickTrace {
                after_movement: t1,
                after_boundary: t2,
                after_prey_steering: t3,
                after_predator_steering: t4,
                after_separation: t5,
                after_consumption: t6,
                after_predation: t7,
                after_prey_replication: t8,
                after_predator_replication: t9,
                after_health_tick: t10,
                after_death: t11,
                after_reseed: t12,
                after_decay: t13,
                after_consumable_despawn: t14,
                after_consumable_replication: t15,
                after_repopulate: t16,
            };
            assert(movement_pass_rel(*old(self), t1));
            assert(boundary_pass_rel(t1, t2));
            assert(prey_steering_pass_rel(t2, t3));
            assert(predator_steering_pass_rel(t3, t4));
            assert(separation_pass_rel(t4, t5));
            assert(consumption_pass_rel(t5, t6));
            assert(predation_pass_rel(t6, t7));
            assert(prey_replication_pass_rel(t7, t8, dt_ms));
            assert(predator_replication_pass_rel(t8, t9, dt_ms));
            assert(if old(self).health_acc_ms + dt_ms >= HEALTH_TICK_MS {
                health_tick_pass_rel(t9, t10)
            } else {
                same_entities(t9, t10)
            });
            assert(death_pass_rel(t10, t11));
            assert(reseed_pass_rel(t11, t12));
            assert(if old(self).decay_acc_ms + dt_ms >= CONSUMABLE_DECAY_MS {
                decay_pass_rel(t12, t13)
            } else {
                same_entities(t12, t13)
            });
            assert(consumable_despawn_pass_rel(t13, t14));
            assert(if old(self).replication_acc_ms + dt_ms >= CONSUMABLE_REPLICATION_MS {
                consumable_replication_pass_rel(t14, t15)
            } else {
                same_entities(t14, t15)
            });
            assert(if old(self).repopulate_acc_ms + dt_ms >= REPOPULATE_MS {
                repopulate_pass_rel(t15, t16)
            } else {
                same_entities(t15, t16)
            });
            assert(tick_trace_ok(*old(self), trace, *self, dt_ms));
        }
    }
}

// ------------------------------------------------------------------
// Guarantees of the simulation.
/// Health stays within `[0, BOID_MAX_HEALTH]` through a health tick, for
/// every agent, whatever its speed trait.
pub proof fn lemma_health_tick_in_range(b: Boid)
    requires
        0 <= b.health <= BOID_MAX_HEALTH,
    ensures
        0 <= health_tick_sp(b).health <= BOID_MAX_HEALTH,
{
}

/// Health stays within `[0, BOID_MAX_HEALTH]` through a pickup, whatever
/// nutrition the consumable carried: a poison pickup cannot drive health
/// below zero and a food pickup cannot drive it past full.
pub proof fn lemma_heal_in_range(b: Boid, n: int)
    ensures
        0 <= heal_sp(b, n).health <= BOID_MAX_HEALTH,
{
}

/// In a well-formed world every agent's health lies within
/// `[0, BOID_MAX_HEALTH]`; each pass ensures well-formedness, so this
/// holds after the health-tick and collision passes of every tick.
pub proof fn lemma_health_in_range(w: World)
    requires
        w.wf(),
    ensures
        forall|i: int|
            0 <= i < w.boids@.len() ==> 0 <= (#[trigger] w.boids@[i]).health <= BOID_MAX_HEALTH,
{
}

/// The movement integrator leaves every agent with a velocity of
/// fixed-point unit length: its squared norm lies within integer
/// quantisation of `FX * FX`.
pub proof fn lemma_integrate_keeps_unit_velocity(b: Boid)
    requires
        b.wf(),
    ensures
        crate::configs::UNIT_NORM_SQ_MIN <= integrate_sp(b).vel.norm_sq_sp()
            <= crate::configs::UNIT_NORM_SQ_MAX,
{
    let sx = b.vel.x + b.acc.x;
    let sy = b.vel.y + b.acc.y;
    if !(sx == 0 && sy == 0) {
        crate::vec2::lemma_normalize_near_unit(Vec2Fx { x: sx as i64, y: sy as i64 });
        crate::vec2::lemma_normalize_sp_component_bounds(Vec2Fx { x: sx as i64, y: sy as i64 });
    }
}

/// In a well-formed world every agent's velocity has fixed-point unit
/// length; each pass ensures well-formedness, so this holds immediately
/// after the movement integrator runs.
pub proof fn lemma_velocity_unit_norm(w: World)
    requires
        w.wf(),
    ensures
        forall|i: int|
            0 <= i < w.boids@.len() ==> crate::configs::UNIT_NORM_SQ_MIN <= (#[trigger] w.boids@[
                i
            ]).vel.norm_sq_sp() <= crate::configs::UNIT_NORM_SQ_MAX,
{
}

/// In a well-formed world no consumable has decayed past its despawn
/// floor: food nutrition stays at or above the positive floor and poison
/// at or below the negative one, as long as the item exists.
pub proof fn lemma_nutrition_above_floor(w: World)
    requires
        w.wf(),
    ensures
        forall|i: int|
            0 <= i < w.consumables@.len() ==> {
                let c = (#[trigger] w.consumables@[i]).consumable;
                (c.is_food_sp() ==> c.0 >= crate::configs::CONSUMABLE_MIN_NUTRITION)
                    && (!c.is_food_sp() ==> c.0 <= -crate::configs::CONSUMABLE_MIN_NUTRITION)
            },
{
}

/// The population caps hold in every well-formed world: live prey boids
/// never exceed `NUM_BOIDS` and live predators never exceed
/// `NUM_PREDATORS`, regardless of replication pressure, since every pass
/// including both replication passes ensures well-formedness.
pub proof fn lemma_population_capped(w: World)
    requires
        w.wf(),
    ensures
        count_boids(w.boids@) <= NUM_BOIDS,
        count_predators(w.boids@) <= NUM_PREDATORS,
{
}

/// Once the consumables are exhausted, the rest of the consumption pass
/// changes nothing.
pub proof fn lemma_consume_fold_stalls_on_empty(
    bs: Seq<Boid>,
    cs: Seq<ConsumableItem>,
    m1: int,
    m2: int,
)
    requires
        0 <= m1 <= m2,
        consume_fold_sp(bs, cs, m1).1.len() == 0,
    ensures
        consume_fold_sp(bs, cs, m2) == consume_fold_sp(bs, cs, m1),
    decreases m2 - m1,
{
    if m2 > m1 {
        lemma_consume_fold_stalls_on_empty(bs, cs, m1, m2 - 1);
    }
}

/// Agents that are predators, or out of collision range of the one
/// consumable in the world, leave it untouched.
proof fn lemma_consume_fold_skips_ineligible(bs: Seq<Boid>, c: ConsumableItem, i: int, m: int)
    requires
        0 <= m <= i <= bs.len(),
        forall|k: int|
            0 <= k < i ==> (#[trigger] bs[k]).is_predator() || dist_sq_sp(bs[k].pos, c.pos)
                >= BOID_COLLISION_RADIUS * BOID_COLLISION_RADIUS,
    ensures
        consume_fold_sp(bs, seq![c], m) == (bs, seq![c]),
    decreases m,
{
    if m > 0 {
        lemma_consume_fold_skips_ineligible(bs, c, i, m - 1);
        let b = bs[m - 1];
        if !b.is_predator() {
            assert(seq![c][0] == c);
            assert(dist_sq_sp(b.pos, c.pos) >= BOID_COLLISION_RADIUS * BOID_COLLISION_RADIUS);
            assert(seq![c].drop_first() =~= Seq::<ConsumableItem>::empty());
            assert(first_hit_sp(
                Seq::<ConsumableItem>::empty(),
                b.pos,
                BOID_COLLISION_RADIUS * BOID_COLLISION_RADIUS,
            ) is None);
            assert(first_hit_sp(seq![c], b.pos, BOID_COLLISION_RADIUS * BOID_COLLISION_RADIUS)
                is None);
        }
    }
}

/// Collision idempotence, in general: with a single consumable in the
/// world, and the agent at index `i` the first non-predator within
/// collision radius of it, the consumption pass feeds exactly that
/// agent: its health takes the clamped sum, the consumable leaves the
/// world once, and every other agent is unchanged.
pub proof fn lemma_single_consumable_single_eater(bs: Seq<Boid>, c: ConsumableItem, i: int)
    requires
        0 <= i < bs.len(),
        !bs[i].is_predator(),
        dist_sq_sp(bs[i].pos, c.pos) < BOID_COLLISION_RADIUS * BOID_COLLISION_RADIUS,
        forall|k: int|
            0 <= k < i ==> (#[trigger] bs[k]).is_predator() || dist_sq_sp(bs[k].pos, c.pos)
                >= BOID_COLLISION_RADIUS * BOID_COLLISION_RADIUS,
    ensures
        ({
            let r = consume_fold_sp(bs, seq![c], bs.len() as int);
            &&& r.1.len() == 0
            &&& r.0[i] == heal_sp(bs[i], c.consumable.0 as int)
            &&& forall|m: int| 0 <= m < bs.len() && m != i ==> #[trigger] r.0[m] == bs[m]
        }),
{
    lemma_consume_fold_skips_ineligible(bs, c, i, i);
    assert(seq![c][0] == c);
    assert(first_hit_sp(seq![c], bs[i].pos, BOID_COLLISION_RADIUS * BOID_COLLISION_RADIUS)
        == Option::Some(0int));
    let r1 = consume_fold_sp(bs, seq![c], i + 1);
    assert(r1.0 == bs.update(i, heal_sp(bs[i], c.consumable.0 as int)) && r1.1 == seq![
        c
    ].remove(0));
    assert(seq![c].remove(0).len() == 0);
    lemma_consume_fold_stalls_on_empty(bs, seq![c], i + 1, bs.len() as int);
}

/// Collision idempotence: when two agents stand simultaneously within
/// collision radius of one and the same consumable, exactly one of them,
/// the first in pass order, consumes it; the consumable leaves the world
/// once and the other agent's health does not change.
pub proof fn lemma_no_double_consumption(bs: Seq<Boid>, c: ConsumableItem)
    requires
        bs.len() == 2,
        !bs[0].is_predator(),
        !bs[1].is_predator(),
        dist_sq_sp(bs[0].pos, c.pos) < BOID_COLLISION_RADIUS * BOID_COLLISION_RADIUS,
        dist_sq_sp(bs[1].pos, c.pos) < BOID_COLLISION_RADIUS * BOID_COLLISION_RADIUS,
    ensures
        ({
            let r = consume_fold_sp(bs, seq![c], 2);
            &&& r.1.len() == 0
            &&& r.0[0] == heal_sp(bs[0], c.consumable.0 as int)
            &&& r.0[1] == bs[1]
        }),
{
    let cs = seq![c];
    let r2 = BOID_COLLISION_RADIUS * BOID_COLLISION_RADIUS;
    assert(consume_fold_sp(bs, cs, 0) == (bs, cs));
    assert(cs[0] == c);
    assert(first_hit_sp(cs, bs[0].pos, r2) == Option::Some(0int));
    let r1 = consume_fold_sp(bs, cs, 1);
    assert(r1.0 == bs.update(0, heal_sp(bs[0], c.consumable.0 as int)) && r1.1 == cs.remove(0));
    assert(cs.remove(0).len() == 0);
    assert(first_hit_sp(r1.1, r1.0[1].pos, r2) is None);
    let r = consume_fold_sp(bs, cs, 2);
    assert(r.0 == r1.0 && r.1 == r1.1);
    assert(r.0[1] == bs[1]);
}

/// Reads one consumable by index.
pub fn consumable_at(v: &Vec<ConsumableItem>, i: usize) -> (r: &ConsumableItem)
    requires
        i < v@.len(),
    ensures
        *r == v@[i as int],
{
    vstd::std_specs::vec::vec_index(v, i)
}

/// A pass that maps agents in place without changing anyone's kind keeps
/// both population counts.
pub proof fn lemma_kind_preserving_counts(a: Seq<Boid>, b: Seq<Boid>)
    requires
        a.len() == b.len(),
        forall|i: int| 0 <= i < a.len() ==> (#[trigger] a[i]).is_predator() == b[i].is_predator(),
    ensures
        count_boids(a) == count_boids(b),
        count_predators(a) == count_predators(b),
    decreases a.len(),
{
    if a.len() > 0 {
        assert(forall|i: int|
            0 <= i < a.drop_last().len() ==> (#[trigger] a.drop_last()[i]).is_predator()
                == b.drop_last()[i].is_predator());
        lemma_kind_preserving_counts(a.drop_last(), b.drop_last());
    }
}

} // verus!
