use ecosim::boid::{Boid, Dna, PredatorDna};
use ecosim::configs::{
    FX, MAX_NUM_POINTS, UNIT_NORM_SQ_MAX, UNIT_NORM_SQ_MIN, WORLD_H, WORLD_W,
};
use ecosim::elements::{Consumable, ConsumableItem};
use ecosim::stats::SimulationStats;
use ecosim::utils::{
    get_rand_unit_vec2, get_steering_force, get_world_bounds, hex_to_rgba, limit_to_world,
    LimitedVec,
};
use ecosim::vec2::Vec2Fx;
use ecosim::world::{get_closest_item, World};

#[test]
fn world_bounds_are_the_arena_rectangle() {
    assert_eq!(get_world_bounds(), (-WORLD_W, -WORLD_H, WORLD_W, WORLD_H));
}

#[test]
fn limit_to_world_clamps_both_axes() {
    assert_eq!(limit_to_world((0, 0)), (0, 0));
    assert_eq!(limit_to_world((WORLD_W + 5, -WORLD_H - 5)), (WORLD_W, -WORLD_H));
    assert_eq!(limit_to_world((-99_999_999, 99_999_999)), (-WORLD_W, WORLD_H));
}

#[test]
fn steering_force_is_corrected_displacement() {
    let t = Vec2Fx { x: 100, y: 200 };
    let p = Vec2Fx { x: 30, y: 50 };
    let v = Vec2Fx { x: 10, y: -20 };
    let f = get_steering_force(t, p, v);
    assert_eq!(f, Vec2Fx { x: 60, y: 170 });
}

#[test]
fn random_unit_vectors_have_unit_norm() {
    for _ in 0..200 {
        let v = get_rand_unit_vec2();
        let n = v.x * v.x + v.y * v.y;
        assert!(n >= UNIT_NORM_SQ_MIN && n <= UNIT_NORM_SQ_MAX);
    }
}

#[test]
fn random_genomes_stay_in_their_ranges() {
    for _ in 0..100 {
        let g = Dna::rand();
        assert!(g.steering_force >= 5 && g.steering_force < 50);
        assert!(g.speed >= 5_000 && g.speed < 15_000);
        assert!(g.food_pull >= -15_000 && g.food_pull < 15_000);
        assert!(g.poison_pull >= -15_000 && g.poison_pull < 15_000);
        assert!(g.predator_pull >= -15_000 && g.predator_pull < 15_000);
        assert!(g.food_perception_radius >= 500_000 && g.food_perception_radius < 1_200_000);
        let p = PredatorDna::rand();
        assert!(p.prey_perception >= 300_000 && p.prey_perception < 1_000_000);
        assert!(p.prey_pull >= -10_000 && p.prey_pull < 10_000);
    }
}

#[test]
fn hex_parses_six_digit_colours() {
    assert_eq!(hex_to_rgba("ff0080"), Some((255, 0, 128, 255)));
    assert_eq!(hex_to_rgba("000000"), Some((0, 0, 0, 255)));
    assert_eq!(hex_to_rgba("8EE770"), Some((142, 231, 112, 255)));
}

#[test]
fn hex_parses_eight_digit_colours() {
    assert_eq!(hex_to_rgba("ff000080"), Some((255, 0, 0, 128)));
    assert_eq!(hex_to_rgba("12345678"), Some((0x12, 0x34, 0x56, 0x78)));
}

#[test]
fn hex_accepts_a_leading_plus() {
    // A leading plus sign is accepted, as the standard radix parse does.
    assert_eq!(hex_to_rgba("+ff000"), Some((15, 240, 0, 255)));
}

#[test]
fn hex_rejects_bad_input() {
    assert_eq!(hex_to_rgba(""), None);
    assert_eq!(hex_to_rgba("fff"), None);
    assert_eq!(hex_to_rgba("ff00x0"), None);
    assert_eq!(hex_to_rgba("ff00801"), None);
    assert_eq!(hex_to_rgba("-f0000"), None);
}

#[test]
fn limited_vec_drops_the_oldest_point() {
    let mut v: LimitedVec<i64> = LimitedVec::new();
    assert_eq!(v.max_size, MAX_NUM_POINTS);
    for i in 0..(MAX_NUM_POINTS as i64 + 3) {
        v.push(i);
    }
    assert_eq!(v.items.len(), MAX_NUM_POINTS);
    assert_eq!(v.items[0], 3);
    assert_eq!(*v.items.last().unwrap(), MAX_NUM_POINTS as i64 + 2);
}

#[test]
fn closest_item_respects_the_radius() {
    let items = vec![
        Vec2Fx { x: 500_000, y: 0 },
        Vec2Fx { x: 200_000, y: 0 },
        Vec2Fx { x: -900_000, y: 0 },
    ];
    let origin = Vec2Fx { x: 0, y: 0 };
    assert_eq!(get_closest_item(origin, 600_000, &items), Some(Vec2Fx { x: 200_000, y: 0 }));
    assert_eq!(get_closest_item(origin, 100_000, &items), None);
}

#[test]
fn closest_item_ties_go_to_the_later_candidate() {
    let items = vec![Vec2Fx { x: 300_000, y: 0 }, Vec2Fx { x: -300_000, y: 0 }];
    let origin = Vec2Fx { x: 0, y: 0 };
    assert_eq!(get_closest_item(origin, 600_000, &items), Some(Vec2Fx { x: -300_000, y: 0 }));
}

#[test]
fn opacity_is_nutrition_relative_to_spawn_magnitude() {
    // Fresh food: 5.0 / 5.0 = 1.0; fresh poison: -30.0 / -30.0 = 1.0;
    // half-decayed poison: 0.5.
    assert_eq!(Consumable(50_000).opacity_fx(), FX);
    assert_eq!(Consumable(-300_000).opacity_fx(), FX);
    assert_eq!(Consumable(-150_000).opacity_fx(), FX / 2);
    assert_eq!(Consumable(25_000).opacity_fx(), FX / 2);
}

#[test]
fn health_fraction_blends_from_zero_to_one() {
    let b = Boid {
        pos: Vec2Fx { x: 0, y: 0 },
        vel: Vec2Fx { x: FX, y: 0 },
        acc: Vec2Fx { x: 0, y: 0 },
        health: 250_000,
        dna: Dna {
            steering_force: 30,
            speed: 10_000,
            food_pull: 0,
            poison_pull: 0,
            predator_pull: 0,
            food_perception_radius: 800_000,
            poison_perception_radius: 800_000,
            predator_perception_radius: 800_000,
        },
        predator_dna: None,
        replicate_elapsed_ms: 0,
        birth_ms: 0,
    };
    assert_eq!(b.health_fraction_fx(), 2_500);
}

#[test]
fn stats_record_population_fractions_and_averages() {
    let mut w = World::new();
    w.bootstrap();
    let mut stats = SimulationStats::new();
    stats.update_stats(&w);
    assert_eq!(stats.num_boids.items.len(), 1);
    // Full bootstrap populations: every fraction is exactly 1.0.
    assert_eq!(stats.num_boids.items[0], FX);
    assert_eq!(stats.num_predators.items[0], FX);
    assert_eq!(stats.num_food.items[0], FX);
    assert_eq!(stats.num_poison.items[0], FX);
    // Averages of freshly drawn traits stay inside the draw ranges.
    assert!(stats.speed.items[0] >= 5_000 && stats.speed.items[0] < 15_000);
    assert!(stats.food_perception.items[0] >= 500_000 && stats.food_perception.items[0] < 1_200_000);
    assert!(stats.prey_perception.items[0] >= 300_000 && stats.prey_perception.items[0] < 1_000_000);
    // At time zero every lifespan is zero.
    assert_eq!(stats.avg_lifespan.items[0], 0);
    assert_eq!(stats.avg_predator_lifespan.items[0], 0);
}

#[test]
fn stats_average_over_an_empty_population_is_zero() {
    let w = World::new();
    let mut stats = SimulationStats::new();
    stats.update_stats(&w);
    assert_eq!(stats.num_boids.items[0], 0);
    assert_eq!(stats.speed.items[0], 0);
    assert_eq!(stats.prey_affinity.items[0], 0);
}

#[test]
fn consumable_replication_keeps_items_in_the_world() {
    let mut w = World::new();
    w.bootstrap();
    // Let every cooldown elapse, then run many replication passes.
    w.time_ms = 10_000;
    for _ in 0..20 {
        w.replicate_consumables();
        for c in w.consumables.iter() {
            assert!(c.pos.x >= -WORLD_W && c.pos.x <= WORLD_W);
            assert!(c.pos.y >= -WORLD_H && c.pos.y <= WORLD_H);
        }
    }
}

#[test]
fn fresh_consumables_carry_their_spawn_nutrition() {
    let f = ConsumableItem::new_food(Vec2Fx { x: 1, y: 2 }, 7);
    assert_eq!(f.consumable.0, 50_000);
    assert_eq!(f.last_replication_ms, 7);
    let p = ConsumableItem::new_poison(Vec2Fx { x: 1, y: 2 }, 7);
    assert_eq!(p.consumable.0, -300_000);
}
