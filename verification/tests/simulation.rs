use ecosim::boid::{Boid, Dna, MutationDeltas, PredatorDeltas, PredatorDna};
use ecosim::configs::{
    BOID_MAX_HEALTH, BOID_NUTRITION, FOOD_NUTRITION, FX, NUM_BOIDS, NUM_FOOD, NUM_POISON,
    NUM_PREDATORS, POISON_DAMAGE, UNIT_NORM_SQ_MAX, UNIT_NORM_SQ_MIN,
};
use ecosim::elements::{Consumable, ConsumableItem};
use ecosim::vec2::Vec2Fx;
use ecosim::world::World;

fn test_dna() -> Dna {
    Dna {
        steering_force: 30,
        speed: 10_000,
        food_pull: 10_000,
        poison_pull: -10_000,
        predator_pull: -10_000,
        food_perception_radius: 800_000,
        poison_perception_radius: 800_000,
        predator_perception_radius: 800_000,
    }
}

fn test_boid(pos: Vec2Fx, health: i64) -> Boid {
    Boid {
        pos,
        vel: Vec2Fx { x: FX, y: 0 },
        acc: Vec2Fx { x: 0, y: 0 },
        health,
        dna: test_dna(),
        predator_dna: None,
        replicate_elapsed_ms: 0,
        birth_ms: 0,
    }
}

fn test_predator(pos: Vec2Fx, health: i64) -> Boid {
    let mut b = test_boid(pos, health);
    b.predator_dna = Some(PredatorDna { prey_perception: 600_000, prey_pull: 8_000 });
    b
}

fn empty_world() -> World {
    World::new()
}

#[test]
fn pickup_adds_nutrition_to_health() {
    // An agent with health 5.0 picks up nutrition 30.0 and ends at 35.0.
    let mut w = empty_world();
    w.boids.push(test_boid(Vec2Fx { x: 0, y: 0 }, 50_000));
    w.consumables.push(ConsumableItem {
        pos: Vec2Fx { x: 0, y: 0 },
        consumable: Consumable(300_000),
        last_replication_ms: 0,
    });
    w.handle_boid_collision();
    assert_eq!(w.boids[0].health, 350_000);
    assert_eq!(w.consumables.len(), 0);
}

#[test]
fn pickup_clamps_health_at_full() {
    // An agent with health 90.0 picks up nutrition 30.0 and clamps at 100.0.
    let mut w = empty_world();
    w.boids.push(test_boid(Vec2Fx { x: 0, y: 0 }, 900_000));
    w.consumables.push(ConsumableItem {
        pos: Vec2Fx { x: 0, y: 0 },
        consumable: Consumable(300_000),
        last_replication_ms: 0,
    });
    w.handle_boid_collision();
    assert_eq!(w.boids[0].health, BOID_MAX_HEALTH);
    assert_eq!(w.boids[0].health, 1_000_000);
}

#[test]
fn poison_pickup_clamps_health_at_zero() {
    let mut w = empty_world();
    w.boids.push(test_boid(Vec2Fx { x: 0, y: 0 }, 200_000));
    w.consumables.push(ConsumableItem {
        pos: Vec2Fx { x: 0, y: 0 },
        consumable: Consumable(POISON_DAMAGE),
        last_replication_ms: 0,
    });
    w.handle_boid_collision();
    assert_eq!(w.boids[0].health, 0);
}

#[test]
fn food_decays_to_floor_then_despawns() {
    // Food at 0.15 decays by 0.1 to the floor 0.1 and despawns on the
    // following check.
    let mut c = Consumable(1_500);
    c.decay();
    assert_eq!(c.0, 1_000);
    assert!(c.is_despawn());

    let mut w = empty_world();
    w.consumables.push(ConsumableItem {
        pos: Vec2Fx { x: 0, y: 0 },
        consumable: Consumable(1_500),
        last_replication_ms: 0,
    });
    w.decay_consumables();
    assert_eq!(w.consumables[0].consumable.0, 1_000);
    w.despawn_consumables();
    assert_eq!(w.consumables.len(), 0);
}

#[test]
fn poison_decays_toward_negative_floor() {
    let mut c = Consumable(-300_000);
    c.decay();
    assert_eq!(c.0, -295_000);
    assert!(!c.is_despawn());
    let mut d = Consumable(-2_000);
    d.decay();
    assert_eq!(d.0, -1_000);
    assert!(d.is_despawn());
}

#[test]
fn predator_consumes_single_boid_in_range() {
    // A predator within predation range of exactly one boid consumes it: a
    // death event carries the prey's position and the boid count drops by
    // exactly one.
    let mut w = empty_world();
    w.boids.push(test_predator(Vec2Fx { x: 0, y: 0 }, 500_000));
    w.boids.push(test_boid(Vec2Fx { x: 50_000, y: 0 }, 700_000));
    w.handle_predator_collision();
    assert_eq!(w.boids.len(), 1);
    assert!(w.boids[0].predator_dna.is_some());
    assert_eq!(w.boids[0].health, 500_000 + BOID_NUTRITION);
    assert_eq!(w.death_events.len(), 1);
    assert_eq!(w.death_events[0], Vec2Fx { x: 50_000, y: 0 });
}

#[test]
fn predator_ignores_boid_out_of_range() {
    let mut w = empty_world();
    w.boids.push(test_predator(Vec2Fx { x: 0, y: 0 }, 500_000));
    w.boids.push(test_boid(Vec2Fx { x: 2_000_000, y: 0 }, 700_000));
    w.handle_predator_collision();
    assert_eq!(w.boids.len(), 2);
    assert_eq!(w.death_events.len(), 0);
}

#[test]
fn one_consumable_feeds_exactly_one_of_two_agents() {
    // Two agents both in range of one consumable: the first in pass order
    // eats it, the second's health does not change.
    let mut w = empty_world();
    w.boids.push(test_boid(Vec2Fx { x: 10_000, y: 0 }, 400_000));
    w.boids.push(test_boid(Vec2Fx { x: -10_000, y: 0 }, 400_000));
    w.consumables.push(ConsumableItem {
        pos: Vec2Fx { x: 0, y: 0 },
        consumable: Consumable(FOOD_NUTRITION),
        last_replication_ms: 0,
    });
    w.handle_boid_collision();
    assert_eq!(w.consumables.len(), 0);
    assert_eq!(w.boids[0].health, 450_000);
    assert_eq!(w.boids[1].health, 400_000);
}

#[test]
fn health_tick_charges_speed_scaled_damage() {
    // Damage is 4.0 * max(speed, 1.0) * 0.5 per health tick.
    let mut w = empty_world();
    let mut b = test_boid(Vec2Fx { x: 0, y: 0 }, 800_000);
    b.dna.speed = 15_000;
    w.boids.push(b);
    w.boid_health_tick();
    assert_eq!(w.boids[0].health, 800_000 - 30_000);
}

#[test]
fn health_tick_clamps_at_zero() {
    let mut w = empty_world();
    let mut b = test_boid(Vec2Fx { x: 0, y: 0 }, 10_000);
    b.dna.speed = 15_000;
    w.boids.push(b);
    w.boid_health_tick();
    assert_eq!(w.boids[0].health, 0);
}

#[test]
fn slow_genomes_pay_the_floored_rate() {
    // A speed trait below 1.0 is floored at 1.0 for damage scaling.
    let mut w = empty_world();
    let mut b = test_boid(Vec2Fx { x: 0, y: 0 }, 800_000);
    b.dna.speed = 5_000;
    w.boids.push(b);
    w.boid_health_tick();
    assert_eq!(w.boids[0].health, 800_000 - 20_000);
}

#[test]
fn dead_boid_despawns_with_event() {
    let mut w = empty_world();
    w.boids.push(test_boid(Vec2Fx { x: 123, y: -456 }, 0));
    w.boids.push(test_boid(Vec2Fx { x: 1, y: 2 }, 500_000));
    w.despawn_boids();
    assert_eq!(w.boids.len(), 1);
    assert_eq!(w.boids[0].health, 500_000);
    assert_eq!(w.death_events.len(), 1);
    assert_eq!(w.death_events[0], Vec2Fx { x: 123, y: -456 });
}

#[test]
fn corpse_reseed_scatters_two_to_four_consumables() {
    let mut w = empty_world();
    w.death_events.push(Vec2Fx { x: 0, y: 0 });
    w.handle_boid_despawn_events();
    assert_eq!(w.death_events.len(), 0);
    assert!(w.consumables.len() >= 2 && w.consumables.len() <= 4);
    for c in w.consumables.iter() {
        assert!(c.consumable.0 == FOOD_NUTRITION || c.consumable.0 == POISON_DAMAGE);
    }
}

#[test]
fn movement_normalises_velocity() {
    // Velocity (1, 0) plus acceleration (0, 0.5) normalises to the
    // fixed-point unit vector (0.8944, 0.4472).
    let mut w = empty_world();
    let mut b = test_boid(Vec2Fx { x: 0, y: 0 }, 500_000);
    b.acc = Vec2Fx { x: 0, y: 5_000 };
    w.boids.push(b);
    w.update_boid_transform();
    let v = w.boids[0].vel;
    assert_eq!(v, Vec2Fx { x: 8_944, y: 4_472 });
    let norm_sq = v.x * v.x + v.y * v.y;
    assert!(norm_sq >= UNIT_NORM_SQ_MIN && norm_sq <= UNIT_NORM_SQ_MAX);
    assert_eq!(w.boids[0].acc, Vec2Fx { x: 0, y: 0 });
}

#[test]
fn movement_translates_by_speed() {
    // With zero acceleration the position advances by velocity * speed.
    let mut w = empty_world();
    let mut b = test_boid(Vec2Fx { x: 1_000, y: 2_000 }, 500_000);
    b.dna.speed = 15_000;
    w.boids.push(b);
    w.update_boid_transform();
    assert_eq!(w.boids[0].pos, Vec2Fx { x: 1_000 + 15_000, y: 2_000 });
    assert_eq!(w.boids[0].vel, Vec2Fx { x: FX, y: 0 });
}

#[test]
fn movement_keeps_facing_on_zero_sum() {
    // When velocity + acceleration is the zero vector the previous facing
    // is retained.
    let mut w = empty_world();
    let mut b = test_boid(Vec2Fx { x: 0, y: 0 }, 500_000);
    b.acc = Vec2Fx { x: -FX, y: 0 };
    w.boids.push(b);
    w.update_boid_transform();
    assert_eq!(w.boids[0].vel, Vec2Fx { x: FX, y: 0 });
}

#[test]
fn mutation_steps_are_exact() {
    // A trait not selected that cycle is inherited exactly; a selected one
    // moves by exactly its step.
    let g = test_dna();
    let d = MutationDeltas {
        steering: 1,
        speed: 0,
        food_pull: -1,
        poison_pull: 0,
        predator_pull: 1,
        food_radius: -1,
        poison_radius: 0,
    };
    let m = g.apply_mutation(d);
    assert_eq!(m.steering_force, 30 + 10);
    assert_eq!(m.speed, 10_000);
    assert_eq!(m.food_pull, 10_000 - 1_000);
    assert_eq!(m.poison_pull, -10_000);
    assert_eq!(m.predator_pull, -10_000 + 1_000);
    assert_eq!(m.food_perception_radius, 800_000 - 50_000);
    assert_eq!(m.poison_perception_radius, 800_000);
    assert_eq!(m.predator_perception_radius, 800_000);
}

#[test]
fn predator_mutation_steps_are_exact() {
    let g = PredatorDna { prey_perception: 600_000, prey_pull: 8_000 };
    let d = PredatorDeltas { perception: 1, pull: -1 };
    let m = g.apply_mutation(d);
    assert_eq!(m.prey_perception, 650_000);
    assert_eq!(m.prey_pull, 7_000);
}

#[test]
fn mutated_radii_never_go_negative() {
    let mut g = test_dna();
    g.food_perception_radius = 10_000;
    let d = MutationDeltas {
        steering: 0,
        speed: 0,
        food_pull: 0,
        poison_pull: 0,
        predator_pull: 0,
        food_radius: -1,
        poison_radius: 0,
    };
    let m = g.apply_mutation(d);
    assert_eq!(m.food_perception_radius, 0);
}

#[test]
fn bootstrap_fills_the_world() {
    let mut w = empty_world();
    w.bootstrap();
    let boids = w.boids.iter().filter(|b| b.predator_dna.is_none()).count();
    let predators = w.boids.iter().filter(|b| b.predator_dna.is_some()).count();
    let food = w.consumables.iter().filter(|c| c.consumable.0 >= 1_000).count();
    let poison = w.consumables.len() - food;
    assert_eq!(boids, NUM_BOIDS);
    assert_eq!(predators, NUM_PREDATORS);
    assert_eq!(food, NUM_FOOD);
    assert_eq!(poison, NUM_POISON);
    for b in w.boids.iter() {
        assert_eq!(b.health, BOID_MAX_HEALTH);
    }
}

#[test]
fn populations_never_exceed_their_caps() {
    // Many ticks under replication pressure: the prey population never
    // exceeds NUM_BOIDS and the predator population never exceeds
    // NUM_PREDATORS.
    let mut w = empty_world();
    w.bootstrap();
    for _ in 0..120 {
        w.tick(250);
        let boids = w.boids.iter().filter(|b| b.predator_dna.is_none()).count();
        let predators = w.boids.iter().filter(|b| b.predator_dna.is_some()).count();
        assert!(boids <= NUM_BOIDS);
        assert!(predators <= NUM_PREDATORS);
        for b in w.boids.iter() {
            assert!(b.health >= 0 && b.health <= BOID_MAX_HEALTH);
            let n = b.vel.x * b.vel.x + b.vel.y * b.vel.y;
            assert!(n >= UNIT_NORM_SQ_MIN && n <= UNIT_NORM_SQ_MAX);
        }
        for c in w.consumables.iter() {
            assert!(c.consumable.0 >= 1_000 || c.consumable.0 <= -1_000);
        }
    }
}

#[test]
fn replication_spawns_child_at_parent_position() {
    // A starving agent with a completed timer reproduces; the child
    // appears at the parent's position with full health.
    let mut w = empty_world();
    let mut b = test_boid(Vec2Fx { x: 77, y: 88 }, 100_000);
    b.replicate_elapsed_ms = 4_999;
    w.boids.push(b);
    w.boids_replicate(10);
    assert_eq!(w.boids.len(), 2);
    // The starving parent's timer completed and keeps the remainder.
    assert_eq!(w.boids[0].replicate_elapsed_ms, (4_999 + 10) % 5_000);
    let child = &w.boids[1];
    assert_eq!(child.pos, Vec2Fx { x: 77, y: 88 });
    assert_eq!(child.health, BOID_MAX_HEALTH);
    assert_eq!(child.replicate_elapsed_ms, 0);
    assert!(child.predator_dna.is_none());
}

#[test]
fn consumable_with_live_cooldown_is_untouched() {
    // A consumable whose replication cooldown has not elapsed attempts
    // nothing: the pass leaves it bit-for-bit unchanged.
    let mut w = empty_world();
    w.time_ms = 1_000;
    w.consumables.push(ConsumableItem {
        pos: Vec2Fx { x: 5, y: 6 },
        consumable: Consumable(FOOD_NUTRITION),
        last_replication_ms: 0,
    });
    for _ in 0..10 {
        w.replicate_consumables();
    }
    assert_eq!(w.consumables.len(), 1);
    assert_eq!(w.consumables[0].last_replication_ms, 0);
    assert_eq!(w.consumables[0].consumable.0, FOOD_NUTRITION);
}

#[test]
fn replication_respects_the_cap() {
    let mut w = empty_world();
    for _ in 0..NUM_BOIDS {
        let mut b = test_boid(Vec2Fx { x: 0, y: 0 }, 100_000);
        b.replicate_elapsed_ms = 4_999;
        w.boids.push(b);
    }
    w.boids_replicate(10);
    let boids = w.boids.iter().filter(|b| b.predator_dna.is_none()).count();
    assert_eq!(boids, NUM_BOIDS);
}

#[test]
fn extinct_population_is_repopulated() {
    let mut w = empty_world();
    w.populate_boids();
    assert_eq!(w.boids.len(), NUM_BOIDS + NUM_PREDATORS);
}

#[test]
fn steering_accumulates_the_food_channel() {
    // Food at 30.0 units with weight |0.003| * 1.0: the corrected
    // displacement (29.0, 0) scales to exactly (870, 0) fixed point.
    let mut w = empty_world();
    w.boids.push(test_boid(Vec2Fx { x: 0, y: 0 }, 500_000));
    w.consumables.push(ConsumableItem {
        pos: Vec2Fx { x: 300_000, y: 0 },
        consumable: Consumable(FOOD_NUTRITION),
        last_replication_ms: 0,
    });
    w.update_boid_direction();
    assert_eq!(w.boids[0].acc, Vec2Fx { x: 870, y: 0 });
}

#[test]
fn steering_ignores_targets_out_of_perception() {
    let mut w = empty_world();
    let mut b = test_boid(Vec2Fx { x: 0, y: 0 }, 500_000);
    b.dna.food_perception_radius = 100_000;
    w.boids.push(b);
    w.consumables.push(ConsumableItem {
        pos: Vec2Fx { x: 300_000, y: 0 },
        consumable: Consumable(FOOD_NUTRITION),
        last_replication_ms: 0,
    });
    w.update_boid_direction();
    assert_eq!(w.boids[0].acc, Vec2Fx { x: 0, y: 0 });
}

#[test]
fn predator_steering_pulls_toward_prey() {
    let mut w = empty_world();
    w.boids.push(test_predator(Vec2Fx { x: 0, y: 0 }, 500_000));
    w.boids.push(test_boid(Vec2Fx { x: 200_000, y: 0 }, 500_000));
    w.update_predator_direction();
    // Weight 30 * 8000 / FX = 24; displacement 190_000 scales to 456.
    assert_eq!(w.boids[0].acc, Vec2Fx { x: 456, y: 0 });
    assert_eq!(w.boids[1].acc, Vec2Fx { x: 0, y: 0 });
}

#[test]
fn boundary_force_steers_back_toward_origin() {
    let mut w = empty_world();
    let mut b = test_boid(Vec2Fx { x: 13_050_000, y: 0 }, 500_000);
    b.vel = Vec2Fx { x: FX, y: 0 };
    w.boids.push(b);
    w.boundary_boids_direction_update();
    // (0 - 13_050_000 - 10_000) * 10 / FX = -13_060.
    assert_eq!(w.boids[0].acc, Vec2Fx { x: -13_060, y: 0 });
}

#[test]
fn separation_repels_close_neighbours() {
    let mut w = empty_world();
    w.boids.push(test_boid(Vec2Fx { x: 0, y: 0 }, 500_000));
    w.boids.push(test_boid(Vec2Fx { x: 40_000, y: 0 }, 500_000));
    w.boid_separation();
    // (40_000 - 0 - 10_000) * -100 / FX = -300, and
    // (0 - 40_000 - 10_000) * -100 / FX = 500; an agent never repels
    // itself (zero distance is skipped).
    assert_eq!(w.boids[0].acc, Vec2Fx { x: -300, y: 0 });
    assert_eq!(w.boids[1].acc, Vec2Fx { x: 500, y: 0 });
}

#[test]
fn separation_ignores_distant_neighbours() {
    let mut w = empty_world();
    w.boids.push(test_boid(Vec2Fx { x: 0, y: 0 }, 500_000));
    w.boids.push(test_boid(Vec2Fx { x: 60_000, y: 0 }, 500_000));
    w.boid_separation();
    // Squared distance 36.0 exceeds the separation threshold of 20.0.
    assert_eq!(w.boids[0].acc, Vec2Fx { x: 0, y: 0 });
    assert_eq!(w.boids[1].acc, Vec2Fx { x: 0, y: 0 });
}
