//! The coupled health/hunger model: actuation cost becomes a drain on one of
//! the two reservoirs, followed by capped overflow transfer between them.

use vstd::prelude::*;

use crate::agent::Agent;
use crate::geom::tdiv;
use crate::units::{clamp_energy, energy_ok, HEALTH_CAP, HUNGER_CAP, MICRO};

verus! {

/// Magnitude of an integer.
pub open spec fn iabs(x: int) -> int {
    if x >= 0 {
        x
    } else {
        -x
    }
}

/// Energy cost of one tick of actuation: `|force| / 40 + |torque| * 50`.
pub open spec fn actuation_cost(force: int, torque: int) -> int {
    tdiv(iabs(force), 40) + 50 * iabs(torque)
}

/// Total drain of one tick: metabolised actuation cost plus the baseline
/// `dt / 20` decay.
pub open spec fn energy_drain(dt: int, metabolism: int, cost: int) -> int {
    tdiv(tdiv(dt * metabolism, MICRO as int) * cost, MICRO as int) + tdiv(dt, 20)
}

/// One homeostasis step on the pair (health, filled): drain the hunger
/// reservoir, or health once starving; then spill hunger above its cap into
/// health; then spill health above its cap back into hunger.
pub open spec fn homeo_step(h: int, f: int, drain: int) -> (int, int) {
    let h0 = if f <= 0 {
        clamp_energy(h - drain)
    } else {
        h
    };
    let f0 = if f <= 0 {
        f
    } else {
        clamp_energy(f - drain)
    };
    let h1 = if f0 > HUNGER_CAP as int {
        clamp_energy(h0 + (f0 - HUNGER_CAP as int))
    } else {
        h0
    };
    let f1 = if f0 > HUNGER_CAP as int {
        HUNGER_CAP as int
    } else {
        f0
    };
    let h2 = if h1 > HEALTH_CAP as int {
        HEALTH_CAP as int
    } else {
        h1
    };
    let f2 = if h1 > HEALTH_CAP as int {
        clamp_energy(f1 + (h1 - HEALTH_CAP as int))
    } else {
        f1
    };
    (h2, f2)
}

/// Both reservoirs at or below their caps.
pub open spec fn homeo_caps(h: int, f: int) -> bool {
    h <= HEALTH_CAP as int && f <= HUNGER_CAP as int
}

/// Homeostasis conservation, one tick: starting within the caps, a step with
/// a non-negative drain keeps both reservoirs within their caps and never
/// increases the total stored energy — transfer between the two fields is
/// the only movement besides the drain.
pub proof fn lemma_homeo_step_conserves(h: int, f: int, drain: int)
    requires
        energy_ok(h),
        energy_ok(f),
        homeo_caps(h, f),
        drain >= 0,
    ensures
        homeo_caps(homeo_step(h, f, drain).0, homeo_step(h, f, drain).1),
        energy_ok(homeo_step(h, f, drain).0),
        energy_ok(homeo_step(h, f, drain).1),
        homeo_step(h, f, drain).0 + homeo_step(h, f, drain).1 <= h + f,
{
}

/// The homeostasis trace of a whole sequence of ticks, given each tick's
/// drain.
pub open spec fn homeo_run(h: int, f: int, drains: Seq<int>) -> (int, int)
    decreases drains.len(),
{
    if drains.len() == 0 {
        (h, f)
    } else {
        let stepped = homeo_step(h, f, drains[0]);
        homeo_run(stepped.0, stepped.1, drains.drop_first())
    }
}

/// Homeostasis conservation over any sequence of ticks with no combat or
/// feeding: the caps hold throughout and `health + filled` is non-increasing
/// except for the internal transfer between the two fields.
pub proof fn lemma_homeostasis_conservation(h: int, f: int, drains: Seq<int>)
    requires
        energy_ok(h),
        energy_ok(f),
        homeo_caps(h, f),
        forall|i: int| 0 <= i < drains.len() ==> #[trigger] drains[i] >= 0,
    ensures
        homeo_caps(homeo_run(h, f, drains).0, homeo_run(h, f, drains).1),
        energy_ok(homeo_run(h, f, drains).0),
        energy_ok(homeo_run(h, f, drains).1),
        homeo_run(h, f, drains).0 + homeo_run(h, f, drains).1 <= h + f,
    decreases drains.len(),
{
    if drains.len() == 0 {
    } else {
        lemma_homeo_step_conserves(h, f, drains[0]);
        let stepped = homeo_step(h, f, drains[0]);
        lemma_homeostasis_conservation(stepped.0, stepped.1, drains.drop_first());
    }
}

/// The (health, filled) pair an agent's reservoirs hold after one tick of
/// homeostasis at tick duration `dt`.
pub open spec fn homeo_of(a: Agent, dt: int) -> (int, int) {
    homeo_step(
        a.health.health as int,
        a.hunger.filled as int,
        energy_drain(
            dt,
            a.hunger.metabolism as int,
            actuation_cost(a.force as int, a.torque as int),
        ),
    )
}

impl Agent {
    /// Apply one tick of homeostasis to this agent: the actuation chosen
    /// this tick is metabolised out of hunger (or health once starving),
    /// then overflow is transferred between the two reservoirs.
    pub fn homeostasis_tick(&mut self, dt: i64)
        requires
            old(self).wf(),
            0 < dt <= MICRO,
        ensures
            final(self).health.health as int == homeo_step(
                old(self).health.health as int,
                old(self).hunger.filled as int,
                energy_drain(
                    dt as int,
                    old(self).hunger.metabolism as int,
                    actuation_cost(old(self).force as int, old(self).torque as int),
                ),
            ).0,
            final(self).hunger.filled as int == homeo_step(
                old(self).health.health as int,
                old(self).hunger.filled as int,
                energy_drain(
                    dt as int,
                    old(self).hunger.metabolism as int,
                    actuation_cost(old(self).force as int, old(self).torque as int),
                ),
            ).1,
            final(self).health.protection == old(self).health.protection,
            final(self).hunger.metabolism == old(self).hunger.metabolism,
            final(self).brain == old(self).brain,
            final(self).age == old(self).age,
            final(self).sight == old(self).sight,
            final(self).size == old(self).size,
            final(self).weapon == old(self).weapon,
            final(self).pos == old(self).pos,
            final(self).heading == old(self).heading,
            final(self).speed == old(self).speed,
            final(self).angvel == old(self).angvel,
            final(self).force == old(self).force,
            final(self).torque == old(self).torque,
            final(self).wf(),
    {
        let fmag: u64 = if self.force >= 0 {
            self.force as u64
        } else {
            (-self.force) as u64
        };
        let tmag: i64 = if self.torque >= 0 {
            self.torque
        } else {
            -self.torque
        };
        let cost: i64 = (fmag / 40) as i64 + 50 * tmag;
        proof {
            vstd::arithmetic::div_mod::lemma_div_pos_is_pos(fmag as int, 40);
            crate::geom::lemma_div_bound(fmag as int, 500_000, 40);
            assert(cost as int == actuation_cost(self.force as int, self.torque as int));
            assert(0 <= cost <= 1_000_000);
        }
        let met: i64 = self.hunger.metabolism;
        proof {
            assert(0 <= dt as int * met as int <= 1_000_000_000_000) by (nonlinear_arith)
                requires
                    0 < dt <= 1_000_000,
                    0 <= met <= 1_000_000,
            ;
        }
        let dtm: i64 = ((dt as u128 * met as u128) / (MICRO as u128)) as i64;
        proof {
            crate::geom::lemma_div_bound(dt as int * met as int, 1_000_000, MICRO as int);
            assert(0 <= dtm as int * cost as int <= 1_000_000_000_000) by (nonlinear_arith)
                requires
                    0 <= dtm <= 1_000_000,
                    0 <= cost <= 1_000_000,
            ;
        }
        let metabolised: i64 = ((dtm as u128 * cost as u128) / (MICRO as u128)) as i64;
        let baseline: i64 = ((dt as u64) / 20) as i64;
        proof {
            crate::geom::lemma_div_bound(dtm as int * cost as int, 1_000_000, MICRO as int);
            vstd::arithmetic::div_mod::lemma_div_pos_is_pos(dt as int, 20);
            crate::geom::lemma_div_bound(dt as int, 50_000, 20);
        }
        let drain: i64 = metabolised + baseline;
        proof {
            assert(drain as int == energy_drain(
                dt as int,
                met as int,
                actuation_cost(self.force as int, self.torque as int),
            ));
        }
        let mut h: i64 = self.health.health;
        let mut f: i64 = self.hunger.filled;
        if f <= 0 {
            h = crate::units::clamp_energy_exec(h as i128 - drain as i128);
        } else {
            f = crate::units::clamp_energy_exec(f as i128 - drain as i128);
        }
        if f > HUNGER_CAP {
            h = crate::units::clamp_energy_exec(h as i128 + (f - HUNGER_CAP) as i128);
            f = HUNGER_CAP;
        }
        if h > HEALTH_CAP {
            f = crate::units::clamp_energy_exec(f as i128 + (h - HEALTH_CAP) as i128);
            h = HEALTH_CAP;
        }
        self.health.health = h;
        self.hunger.filled = f;
    }
}

} // verus!
