//! The entities of the simulation: agents ("minions") with their component
//! reservoirs and zones, and food items.

use vstd::prelude::*;

use crate::geom::{in_box, Vec2, HEAD_LIMIT, POS_LIMIT, RADIUS_LIMIT};
use crate::sensor::{entry_wf, SightEntry};
use crate::units::{energy_ok, HEALTH_CAP, MICRO};

verus! {

/// Protection multipliers live in `[0, 10]` units.
pub const PROT_LIMIT: i64 = 10_000_000;

/// Weapon damage rates live in `[0, 1]` units per second.
pub const DAMAGE_LIMIT: i64 = 1_000_000;

/// Ages saturate at this value (about thirty simulated years).
pub const AGE_LIMIT: i64 = 1_000_000_000_000_000;

/// Default sight radius: 400 units.
pub const SIGHT_RADIUS: i64 = 400_000_000;

/// Default agent body radius: 16 units.
pub const BODY_RADIUS: i64 = 16_000_000;

/// Food body radius: 8 units.
pub const FOOD_RADIUS: i64 = 8_000_000;

/// Default weapon damage rate: 0.2 units per second.
pub const WEAPON_DAMAGE: i64 = 200_000;

/// Default weapon width: 16 units.
pub const WEAPON_WIDTH: i64 = 16_000_000;

/// Advisory lifespan: 720 seconds. Recorded and aged but never compared
/// against age to trigger death.
pub const LIFESPAN: i64 = 720_000_000;

/// Default metabolism rate: 0.02.
pub const METABOLISM: i64 = 20_000;

/// Hunger reservoir at birth: 1.0 units.
pub const HUNGER_START: i64 = 1_000_000;

/// Health a food item starts with: 0.99 units.
pub const FOOD_HEALTH: i64 = 990_000;

/// Largest linear force magnitude an agent can emit: 20 units.
pub const FORCE_LIMIT: i64 = 20_000_000;

/// Largest torque magnitude an agent can emit: 0.01 units.
pub const TORQUE_LIMIT: i64 = 10_000;

/// Health value with a protection multiplier.
#[derive(Clone, Copy, Debug, PartialEq, Eq, Structural)]
pub struct Health {
    /// Remaining health in micro-units; the entity dies at zero or below.
    pub health: i64,
    /// Incoming damage is scaled by this micro-unit multiplier.
    pub protection: i64,
}

/// Hunger reservoir with a metabolism rate.
#[derive(Clone, Copy, Debug, PartialEq, Eq, Structural)]
pub struct Hunger {
    /// Stored energy in micro-units; nominally within `[0, HUNGER_CAP]`.
    pub filled: i64,
    /// Actuation cost multiplier in micro-units.
    pub metabolism: i64,
}

/// Attack zone parameters.
#[derive(Clone, Copy, Debug, PartialEq, Eq, Structural)]
pub struct Weapon {
    /// Damage rate in micro-units per second.
    pub damage: i64,
    /// Width of the attack shape in micro-units.
    pub width: i64,
}

/// Sensing zone parameters.
#[derive(Clone, Copy, Debug, PartialEq, Eq, Structural)]
pub struct Sight {
    /// Radius of the detector shape in micro-units.
    pub radius: i64,
}

/// Body size.
#[derive(Clone, Copy, Debug, PartialEq, Eq, Structural)]
pub struct Size {
    /// Body radius in micro-units.
    pub radius: i64,
}

/// Age and advisory lifespan, both in micro-seconds.
#[derive(Clone, Copy, Debug, PartialEq, Eq, Structural)]
pub struct Age {
    /// Time lived, monotonic.
    pub age: i64,
    /// Advisory lifespan; never triggers death.
    pub lifespan: i64,
}

/// An agent's controller handle and its per-tick sight buffers. The neural
/// network itself is an outside collaborator; the simulation tracks only its
/// generation counter, which every mutation pass increments by one.
#[derive(Debug)]
pub struct Brain {
    /// Mutation count of the controller this agent carries.
    pub generation: u64,
    /// Sightings of other agents, cleared every tick.
    pub sight_minions: Vec<SightEntry>,
    /// Sightings of food, cleared every tick.
    pub sight_food: Vec<SightEntry>,
}

/// An autonomous creature. Its detector and weapon zones are part of the
/// record, so they exist exactly as long as the agent does.
#[derive(Debug)]
pub struct Agent {
    /// Controller handle and sight buffers.
    pub brain: Brain,
    /// Health reservoir.
    pub health: Health,
    /// Hunger reservoir.
    pub hunger: Hunger,
    /// Age and lifespan.
    pub age: Age,
    /// Detector zone.
    pub sight: Sight,
    /// Body size.
    pub size: Size,
    /// Weapon zone.
    pub weapon: Weapon,
    /// Position in micro-units.
    pub pos: Vec2,
    /// Unit-length facing direction, micro-scaled.
    pub heading: Vec2,
    /// Linear speed magnitude reported by the engine.
    pub speed: i64,
    /// Angular velocity reported by the engine.
    pub angvel: i64,
    /// Linear force magnitude chosen this tick, within the force limit.
    pub force: i64,
    /// Torque chosen this tick, within the torque limit.
    pub torque: i64,
}

/// A food item.
#[derive(Clone, Copy, Debug, PartialEq, Eq, Structural)]
pub struct Food {
    /// Health reservoir; feeding drains it.
    pub health: Health,
    /// Body size.
    pub size: Size,
    /// Position in micro-units.
    pub pos: Vec2,
}

impl Health {
    /// Well-formed: energy within the rails, protection within its range.
    pub open spec fn wf(self) -> bool {
        &&& energy_ok(self.health as int)
        &&& 0 <= self.protection <= PROT_LIMIT
    }

    /// A reservoir holding `hp` with neutral protection.
    pub fn new(hp: i64) -> (r: Health)
        ensures
            r.health == hp,
            r.protection == MICRO,
    {
        Health { health: hp, protection: MICRO }
    }
}

impl Default for Health {
    /// Full health, neutral protection.
    fn default() -> (r: Health)
        ensures
            r.health == HEALTH_CAP,
            r.protection == MICRO,
            r.wf(),
    {
        Health { health: HEALTH_CAP, protection: MICRO }
    }
}

impl Hunger {
    /// Well-formed: stored energy within the rails, metabolism within range.
    pub open spec fn wf(self) -> bool {
        &&& energy_ok(self.filled as int)
        &&& 0 <= self.metabolism <= MICRO
    }
}

impl Default for Hunger {
    /// A reservoir holding one unit at the default metabolism.
    fn default() -> (r: Hunger)
        ensures
            r.filled == HUNGER_START,
            r.metabolism == METABOLISM,
            r.wf(),
    {
        Hunger { filled: HUNGER_START, metabolism: METABOLISM }
    }
}

impl Weapon {
    /// Well-formed: damage rate within its range.
    pub open spec fn wf(self) -> bool {
        &&& 0 <= self.damage <= DAMAGE_LIMIT
        &&& 0 <= self.width
    }
}

impl Default for Weapon {
    /// The standard weapon.
    fn default() -> (r: Weapon)
        ensures
            r.damage == WEAPON_DAMAGE,
            r.width == WEAPON_WIDTH,
            r.wf(),
    {
        Weapon { damage: WEAPON_DAMAGE, width: WEAPON_WIDTH }
    }
}

impl Default for Sight {
    /// The standard detector radius.
    fn default() -> (r: Sight)
        ensures
            r.radius == SIGHT_RADIUS,
    {
        Sight { radius: SIGHT_RADIUS }
    }
}

impl Size {
    /// Well-formed: a positive radius, bounded for the distance arithmetic.
    pub open spec fn wf(self) -> bool {
        1 <= self.radius <= RADIUS_LIMIT
    }
}

impl Default for Size {
    /// The standard agent body radius.
    fn default() -> (r: Size)
        ensures
            r.radius == BODY_RADIUS,
            r.wf(),
    {
        Size { radius: BODY_RADIUS }
    }
}

impl Age {
    /// Well-formed: age non-negative and below the saturation rail.
    pub open spec fn wf(self) -> bool {
        0 <= self.age <= AGE_LIMIT
    }
}

impl Default for Age {
    /// A newborn with the advisory lifespan.
    fn default() -> (r: Age)
        ensures
            r.age == 0,
            r.lifespan == LIFESPAN,
            r.wf(),
    {
        Age { age: 0, lifespan: LIFESPAN }
    }
}

impl Brain {
    /// Well-formed: every buffered sighting is in range.
    pub open spec fn wf(self) -> bool {
        &&& forall|i: int|
            0 <= i < self.sight_minions@.len() ==> entry_wf(#[trigger] self.sight_minions@[i])
        &&& forall|i: int| 0 <= i < self.sight_food@.len() ==> entry_wf(#[trigger] self.sight_food@[i])
    }

    /// A fresh controller handle at a given generation, with empty buffers.
    pub fn with_generation(generation: u64) -> (r: Brain)
        ensures
            r.generation == generation,
            r.sight_minions@.len() == 0,
            r.sight_food@.len() == 0,
            r.wf(),
    {
        Brain { generation, sight_minions: Vec::new(), sight_food: Vec::new() }
    }
}

impl Default for Brain {
    /// A generation-zero controller handle with empty buffers.
    fn default() -> (r: Brain)
        ensures
            r.generation == 0,
            r.sight_minions@.len() == 0,
            r.sight_food@.len() == 0,
            r.wf(),
    {
        Brain { generation: 0, sight_minions: Vec::new(), sight_food: Vec::new() }
    }
}

impl Agent {
    /// Well-formed agent: every component in range.
    pub open spec fn wf(self) -> bool {
        &&& self.brain.wf()
        &&& self.health.wf()
        &&& self.hunger.wf()
        &&& self.age.wf()
        &&& self.size.wf()
        &&& self.weapon.wf()
        &&& in_box(self.pos, POS_LIMIT as int)
        &&& in_box(self.heading, HEAD_LIMIT as int)
        &&& -FORCE_LIMIT <= self.force <= FORCE_LIMIT
        &&& -TORQUE_LIMIT <= self.torque <= TORQUE_LIMIT
    }

    /// `a1` agrees with `a0` on everything but the sight buffers.
    pub open spec fn same_but_buffers(a0: Agent, a1: Agent) -> bool {
        &&& a1.brain.generation == a0.brain.generation
        &&& a1.health == a0.health
        &&& a1.hunger == a0.hunger
        &&& a1.age == a0.age
        &&& a1.sight == a0.sight
        &&& a1.size == a0.size
        &&& a1.weapon == a0.weapon
        &&& a1.pos == a0.pos
        &&& a1.heading == a0.heading
        &&& a1.speed == a0.speed
        &&& a1.angvel == a0.angvel
        &&& a1.force == a0.force
        &&& a1.torque == a0.torque
    }

    /// `a1` agrees with `a0` on everything but the chosen actuation.
    pub open spec fn same_but_actuation(a0: Agent, a1: Agent) -> bool {
        &&& a1.brain == a0.brain
        &&& a1.health == a0.health
        &&& a1.hunger == a0.hunger
        &&& a1.age == a0.age
        &&& a1.sight == a0.sight
        &&& a1.size == a0.size
        &&& a1.weapon == a0.weapon
        &&& a1.pos == a0.pos
        &&& a1.heading == a0.heading
        &&& a1.speed == a0.speed
        &&& a1.angvel == a0.angvel
    }

    /// `a1` agrees with `a0` on everything but stored health and hunger.
    pub open spec fn same_but_energy(a0: Agent, a1: Agent) -> bool {
        &&& a1.brain == a0.brain
        &&& a1.health.protection == a0.health.protection
        &&& a1.hunger.metabolism == a0.hunger.metabolism
        &&& a1.age == a0.age
        &&& a1.sight == a0.sight
        &&& a1.size == a0.size
        &&& a1.weapon == a0.weapon
        &&& a1.pos == a0.pos
        &&& a1.heading == a0.heading
        &&& a1.speed == a0.speed
        &&& a1.angvel == a0.angvel
        &&& a1.force == a0.force
        &&& a1.torque == a0.torque
    }

    /// What a newborn agent looks like: default stats, empty sight buffers,
    /// an idle actuation state, and the given placement and controller
    /// generation.
    pub open spec fn is_newborn(self, pos: Vec2, heading: Vec2, generation: u64) -> bool {
        &&& self.brain.generation == generation
        &&& self.brain.sight_minions@.len() == 0
        &&& self.brain.sight_food@.len() == 0
        &&& self.health == (Health { health: HEALTH_CAP, protection: MICRO })
        &&& self.hunger == (Hunger { filled: HUNGER_START, metabolism: METABOLISM })
        &&& self.age == (Age { age: 0, lifespan: LIFESPAN })
        &&& self.sight == (Sight { radius: SIGHT_RADIUS })
        &&& self.size == (Size { radius: BODY_RADIUS })
        &&& self.weapon == (Weapon { damage: WEAPON_DAMAGE, width: WEAPON_WIDTH })
        &&& self.pos == pos
        &&& self.heading == heading
        &&& self.speed == 0 && self.angvel == 0 && self.force == 0 && self.torque == 0
    }

    /// A newborn agent at `pos`, facing `heading`, carrying a controller of
    /// the given generation, with default stats and an idle actuation state.
    pub fn spawned(pos: Vec2, heading: Vec2, generation: u64) -> (r: Agent)
        requires
            in_box(pos, POS_LIMIT as int),
            in_box(heading, HEAD_LIMIT as int),
        ensures
            r.is_newborn(pos, heading, generation),
            r.wf(),
    {
        Agent {
            brain: Brain::with_generation(generation),
            health: Health::default(),
            hunger: Hunger::default(),
            age: Age::default(),
            sight: Sight::default(),
            size: Size::default(),
            weapon: Weapon::default(),
            pos,
            heading,
            speed: 0,
            angvel: 0,
            force: 0,
            torque: 0,
        }
    }
}

impl Food {
    /// Well-formed food item.
    pub open spec fn wf(self) -> bool {
        &&& self.health.wf()
        &&& self.size.wf()
        &&& in_box(self.pos, POS_LIMIT as int)
    }

    /// A fresh food item at `pos`.
    pub fn spawned(pos: Vec2) -> (r: Food)
        requires
            in_box(pos, POS_LIMIT as int),
        ensures
            r.health == (Health { health: FOOD_HEALTH, protection: MICRO }),
            r.size == (Size { radius: FOOD_RADIUS }),
            r.pos == pos,
            r.wf(),
    {
        Food {
            health: Health::new(FOOD_HEALTH),
            size: Size { radius: FOOD_RADIUS },
            pos,
        }
    }
}

} // verus!
