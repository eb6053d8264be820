use vstd::prelude::*;

verus! {

// All simulation quantities are fixed-point integers: one world unit is
// `FX` steps, so a literal like `80_000` reads as `8.0` world units.

/// Fixed-point scale: the number of integer steps per world unit.
pub const FX: i64 = 10_000;
/// `FX * FX`, the scale of a product of two fixed-point values.
pub const FX_SQ: i64 = 100_000_000;

// World bounds (half-extents of the rectangular arena, fixed point).
pub const WORLD_W: i64 = 13_050_000;
pub const WORLD_H: i64 = 7_300_000;

// Population caps and bootstrap counts.
pub const NUM_BOIDS: usize = 100;
pub const NUM_PREDATORS: usize = 10;
pub const NUM_FOOD: usize = 600;
pub const NUM_POISON: usize = 150;

// Agents.
pub const BOID_COLLISION_RADIUS: i64 = 80_000;
pub const PREDATOR_COLLISION_RADIUS: i64 = 100_000;
pub const BOID_MAX_HEALTH: i64 = 1_000_000;
pub const BOID_TICK_DAMAGE: i64 = 40_000;
pub const BOID_NUTRITION: i64 = 300_000;

// Consumables. Food carries positive nutrition, poison negative; each decays
// toward the despawn floor of magnitude `CONSUMABLE_MIN_NUTRITION`.
pub const FOOD_NUTRITION: i64 = 50_000;
pub const POISON_DAMAGE: i64 = -300_000;
pub const FOOD_DECAY_RATE: i64 = -1_000;
pub const POISON_DECAY_RATE: i64 = 5_000;
pub const CONSUMABLE_MIN_NUTRITION: i64 = 1_000;
pub const CONSUMABLE_MAX_NUTRITION: i64 = 300_000;
pub const REPLICATION_RADIUS_FOOD: i64 = 400_000;
pub const REPLICATION_RADIUS_POISON: i64 = 50_000;
pub const CORPSE_SCATTER_RADIUS: i64 = 300_000;

// Squared-distance threshold under which two boids repel each other,
// in fixed-point-squared units (20 square world units).
pub const SEPARATION_DIST_SQ: i64 = 2_000_000_000;

/// Largest frame delta one tick accepts, in milliseconds.
pub const DT_MAX_MS: u64 = 1_000_000;

// Cadences, in milliseconds of simulated wall-clock time.
pub const HEALTH_TICK_MS: u64 = 500;
pub const CONSUMABLE_DECAY_MS: u64 = 1_500;
pub const CONSUMABLE_REPLICATION_MS: u64 = 200;
pub const REPLICATION_COOLDOWN_MS: u64 = 2_000;
pub const BOID_REPLICATE_INTERVAL_MS: u64 = 5_000;
pub const REPOPULATE_MS: u64 = 5_000;

// Probability thresholds. A draw is uniform in `[0, PROB_ONE)` and an
// event with threshold 8_000 occurs when the draw is at least 8_000,
// that is with probability 0.2.
pub const PROB_ONE: i64 = 10_000;
pub const BOID_REPLICATE_GATE: i64 = 8_000;
pub const MUTATION_GATE: i64 = 8_000;
pub const MUTATION_SIGN_GATE: i64 = 5_000;
pub const CORPSE_POISON_GATE: i64 = 8_500;
pub const CONSUMABLE_REPLICATE_GATE: i64 = 8_000;
pub const POISON_KEEPS_KIND_GATE: i64 = 4_000;

// Steering scale factors, applied as `value * scale / FX`: the weak
// boundary correction (0.001) and the pairwise separation repulsion
// (-0.01), both in fixed point.
pub const BOUNDARY_FORCE_SCALE: i64 = 10;
pub const SEPARATION_FORCE_SCALE: i64 = -100;

// Genome trait ranges at random initialisation (fixed point).
pub const STEERING_FORCE_MIN: i64 = 5;
pub const STEERING_FORCE_MAX: i64 = 50;
pub const SPEED_MIN: i64 = 5_000;
pub const SPEED_MAX: i64 = 15_000;
pub const PULL_MIN: i64 = -15_000;
pub const PULL_MAX: i64 = 15_000;
pub const PERCEPTION_MIN: i64 = 500_000;
pub const PERCEPTION_MAX: i64 = 1_200_000;
pub const PREY_PERCEPTION_MIN: i64 = 300_000;
pub const PREY_PERCEPTION_MAX: i64 = 1_000_000;
pub const PREY_PULL_MIN: i64 = -10_000;
pub const PREY_PULL_MAX: i64 = 10_000;

// Mutation steps: the base step is 0.1 world units, scaled per trait.
pub const MUTATION_STEP_BASE: i64 = 1_000;
pub const MUTATION_STEP_STEERING: i64 = 10;
pub const MUTATION_STEP_PERCEPTION: i64 = 50_000;

// Representable-range bounds. Genome traits drift without bound across
// generations; they are kept inside `TRAIT_BOUND` so that every product in
// the steering arithmetic stays in range. Positions outside `POS_BOUND`
// are rejected by the movement integrator, and accumulated acceleration
// saturates at `ACC_BOUND`.
pub const TRAIT_BOUND: i64 = 1_000_000_000;
pub const POS_BOUND: i64 = 100_000_000;
pub const ACC_BOUND: i64 = 1_000_000_000;

// Observability: time series are capped at this many points.
pub const MAX_NUM_POINTS: usize = 8_000;

// Random unit vectors are normalised from components drawn in this range
// (100 world units, fixed point).
pub const RAND_VEC_BOUND: i64 = 1_000_000;

/// Largest component magnitude the velocity normaliser accepts.
pub const NORM_IN_BOUND: i64 = ACC_BOUND + FX;

// A normalised velocity has squared norm within these bounds: `FX * FX`
// up to integer quantisation (`FX * FX - 4 * FX - 1` and `(FX + 1) * (FX + 1)`).
pub const UNIT_NORM_SQ_MIN: i64 = 99_959_999;
pub const UNIT_NORM_SQ_MAX: i64 = 100_020_001;

} // verus!
