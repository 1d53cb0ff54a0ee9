//! Fixed-point scale and the numeric constants of the simulation rules.

use vstd::prelude::*;

verus! {

/// Fixed-point scale: one simulation unit in micro-units.
pub const MICRO: i64 = 1_000_000;

/// Upper cap of the hunger reservoir (2.1 units).
pub const HUNGER_CAP: i64 = 2_100_000;

/// Upper cap of the health reservoir (1.0 units).
pub const HEALTH_CAP: i64 = 1_000_000;

/// Saturation rail for every energy-like quantity. Values this large are far
/// outside nominal play; the rail only keeps fixed-point arithmetic in range.
pub const ENERGY_LIMIT: i64 = 1_000_000_000_000;

/// Clamp an energy-like value to the saturation rails.
pub open spec fn clamp_energy(x: int) -> int {
    if x > ENERGY_LIMIT as int {
        ENERGY_LIMIT as int
    } else if x < -(ENERGY_LIMIT as int) {
        -(ENERGY_LIMIT as int)
    } else {
        x
    }
}

/// Whether an energy-like value lies within the saturation rails.
pub open spec fn energy_ok(x: int) -> bool {
    -(ENERGY_LIMIT as int) <= x <= ENERGY_LIMIT as int
}

/// Clamp a 128-bit intermediate back onto the energy rails.
pub fn clamp_energy_exec(x: i128) -> (r: i64)
    ensures
        r as int == clamp_energy(x as int),
{
    if x > ENERGY_LIMIT as i128 {
        ENERGY_LIMIT
    } else if x < -(ENERGY_LIMIT as i128) {
        -ENERGY_LIMIT
    } else {
        x as i64
    }
}

} // verus!
