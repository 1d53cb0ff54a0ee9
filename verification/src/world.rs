//! The world: an arena of agent and food slots, and the per-tick systems
//! that run over them. Removed entities leave a `None` slot behind, so event
//! references to entities that died earlier in the tick are skipped, never
//! faulted on.

use vstd::prelude::*;

use crate::agent::{Agent, Food, AGE_LIMIT, FORCE_LIMIT};
use crate::geom::{clamp_i, in_box, sense_angle, sense_dist, tdiv, vdiff, Vec2, HEAD_LIMIT,
    POS_LIMIT};
use crate::homeostasis::homeo_of;
use crate::sensor::{inv_dist, lemma_nearest_ranges, nearest, SightEntry, DIST_INF};
use crate::units::{clamp_energy, MICRO};

verus! {

/// The sighting entry an observer records for a body at `t_pos`.
pub open spec fn sighting_of(o: Agent, t_pos: Vec2) -> SightEntry {
    SightEntry {
        angle: sense_angle(o.heading, vdiff(t_pos, o.pos)) as i64,
        dist: sense_dist(vdiff(t_pos, o.pos), o.size.radius as int) as i64,
    }
}

/// Damage dealt by one overlap event: `weapon damage * dt * protection`,
/// in micro-units.
pub open spec fn damage_of(damage: int, dt: int, prot: int) -> int {
    tdiv(tdiv(damage * dt, MICRO as int) * prot, MICRO as int)
}

/// Elapsed simulation time saturates here, far beyond any run.
pub const TIME_LIMIT: i64 = 4_000_000_000_000_000_000;

/// Half-width of the square in which new agents and food appear
/// (2 000 units around the origin).
pub const SPAWN_BOUND: i64 = 2_000_000_000;

/// Hunger level above which an agent reproduces.
pub const REPRO_THRESHOLD: i64 = 1_500_000;

/// Hunger spent by one reproduction.
pub const REPRO_COST: i64 = 500_000;

/// How far ahead of the parent an offspring appears: 500 units along the
/// parent's heading.
pub const OFFSPRING_OFFSET: i64 = 500;

/// Whether a slot holds an agent fertile this tick.
pub open spec fn fertile(s: Option<Agent>) -> bool {
    match s {
        Some(a) => a.hunger.filled > REPRO_THRESHOLD,
        None => false,
    }
}

/// Slot indices of the fertile agents, in slot order.
pub open spec fn fertile_idxs(s: Seq<Option<Agent>>) -> Seq<int>
    decreases s.len(),
{
    if s.len() == 0 {
        Seq::empty()
    } else {
        let p = fertile_idxs(s.drop_last());
        if fertile(s.last()) {
            p.push(s.len() - 1)
        } else {
            p
        }
    }
}

/// Reproduction is scheduled exactly once per fertile agent per pass: the
/// schedule lists an index if and only if its slot is fertile, each listed
/// index is in range and fertile, and the list is strictly increasing — so
/// no agent appears twice.
pub proof fn lemma_fertile_schedule(s: Seq<Option<Agent>>)
    ensures
        forall|k: int|
            0 <= k < fertile_idxs(s).len() ==> 0 <= #[trigger] fertile_idxs(s)[k] < s.len()
                && fertile(s[fertile_idxs(s)[k]]),
        forall|k1: int, k2: int|
            0 <= k1 < k2 < fertile_idxs(s).len() ==> fertile_idxs(s)[k1] < fertile_idxs(s)[k2],
        forall|i: int| 0 <= i < s.len() && fertile(s[i]) ==> fertile_idxs(s).contains(i),
    decreases s.len(),
{
    if s.len() > 0 {
        let pre = s.drop_last();
        lemma_fertile_schedule(pre);
        assert(forall|j: int| 0 <= j < pre.len() ==> pre[j] == s[j]);
        assert forall|i: int| 0 <= i < s.len() && fertile(s[i]) implies fertile_idxs(s).contains(
            i,
        ) by {
            if i < pre.len() {
                assert(fertile_idxs(pre).contains(i));
                let k = choose|k: int|
                    0 <= k < fertile_idxs(pre).len() && fertile_idxs(pre)[k] == i;
                assert(fertile_idxs(s)[k] == i);
            } else {
                assert(fertile(s.last()));
                assert(fertile_idxs(s).last() == i);
            }
        }
    }
}

/// Where an offspring appears: 500 units ahead of the parent along its
/// heading, clamped into the position box.
pub open spec fn offspring_pos(a: Agent) -> Vec2 {
    Vec2 {
        x: clamp_i(
            a.pos.x + OFFSPRING_OFFSET * a.heading.x,
            -POS_LIMIT as int,
            POS_LIMIT as int,
        ) as i64,
        y: clamp_i(
            a.pos.y + OFFSPRING_OFFSET * a.heading.y,
            -POS_LIMIT as int,
            POS_LIMIT as int,
        ) as i64,
    }
}

/// The controller generation of an offspring: the parent's controller is
/// cloned and mutated three times, each pass incrementing the generation
/// counter; the counter saturates at its rail.
pub open spec fn offspring_gen(g: u64) -> u64 {
    if g <= u64::MAX - 3 {
        (g + 3) as u64
    } else {
        u64::MAX
    }
}

/// A fertile slot after its reproduction: the agent with the reproduction
/// cost taken out of its hunger reservoir.
pub open spec fn drained_parent(a: Agent) -> Agent {
    Agent {
        hunger: crate::agent::Hunger {
            filled: (a.hunger.filled - REPRO_COST) as i64,
            metabolism: a.hunger.metabolism,
        },
        ..a
    }
}

/// Combat energy transfer: with attacker and victim protection both 1 and
/// reservoirs in the nominal play range, one resolved overlap at weapon
/// damage `d` and tick duration `t` moves exactly `d*t` out of the victim's
/// health while the attacker gains exactly `d*t/3` hunger and `d*t/2`
/// health — the saturation rails stay inactive, so each event's transfer is
/// independent of any other event resolved the same tick.
pub proof fn lemma_combat_energy_transfer(
    d: int,
    t: int,
    h_att: int,
    f_att: int,
    h_vic: int,
)
    requires
        0 <= d <= crate::agent::DAMAGE_LIMIT,
        0 < t <= MICRO as int,
        -1_000_000_000 <= h_att <= 1_000_000_000,
        -1_000_000_000 <= f_att <= 1_000_000_000,
        -1_000_000_000 <= h_vic <= 1_000_000_000,
    ensures
        damage_of(d, t, MICRO as int) == tdiv(d * t, MICRO as int),
        clamp_energy(h_vic - damage_of(d, t, MICRO as int)) == h_vic - tdiv(d * t, MICRO as int),
        clamp_energy(f_att + tdiv(damage_of(d, t, MICRO as int), 3)) == f_att + tdiv(
            tdiv(d * t, MICRO as int),
            3,
        ),
        clamp_energy(h_att + tdiv(damage_of(d, t, MICRO as int), 2)) == h_att + tdiv(
            tdiv(d * t, MICRO as int),
            2,
        ),
{
    assert(0 <= d * t <= 1_000_000_000_000) by (nonlinear_arith)
        requires
            0 <= d <= 1_000_000,
            0 < t <= 1_000_000,
    ;
    let q = (d * t) / (MICRO as int);
    crate::geom::lemma_div_bound(d * t, 1_000_000, MICRO as int);
    vstd::arithmetic::div_mod::lemma_div_by_multiple(q, MICRO as int);
    vstd::arithmetic::div_mod::lemma_div_pos_is_pos(q, 3);
    vstd::arithmetic::div_mod::lemma_div_pos_is_pos(q, 2);
    vstd::arithmetic::div_mod::lemma_div_is_ordered(q, 1_000_000, 3);
    vstd::arithmetic::div_mod::lemma_div_is_ordered(q, 1_000_000, 2);
}

/// A well-formed agent slot: empty, or holding a well-formed agent.
pub open spec fn slot_wf(s: Option<Agent>) -> bool {
    match s {
        Some(a) => a.wf(),
        None => true,
    }
}

/// A well-formed food slot.
pub open spec fn food_slot_wf(s: Option<Food>) -> bool {
    match s {
        Some(f) => f.wf(),
        None => true,
    }
}

/// Number of occupied slots.
pub open spec fn count_some<T>(s: Seq<Option<T>>) -> int
    decreases s.len(),
{
    if s.len() == 0 {
        0
    } else {
        count_some(s.drop_last()) + if s.last() is Some {
            1int
        } else {
            0int
        }
    }
}

/// Occupied slots are never more numerous than slots.
pub proof fn lemma_count_some_le_len<T>(s: Seq<Option<T>>)
    ensures
        0 <= count_some(s) <= s.len(),
    decreases s.len(),
{
    if s.len() > 0 {
        lemma_count_some_le_len(s.drop_last());
    }
}

/// The simulation world.
pub struct World {
    /// Agent slots; a dead agent leaves `None` behind.
    pub agents: Vec<Option<Agent>>,
    /// Food slots; consumed food leaves `None` behind.
    pub foods: Vec<Option<Food>>,
    /// Elapsed simulation time in micro-seconds.
    pub elapsed: i64,
}

impl World {
    /// Every slot is well-formed and the clock is in range.
    pub open spec fn wf(self) -> bool {
        &&& forall|i: int| 0 <= i < self.agents@.len() ==> slot_wf(#[trigger] self.agents@[i])
        &&& forall|i: int| 0 <= i < self.foods@.len() ==> food_slot_wf(#[trigger] self.foods@[i])
        &&& 0 <= self.elapsed <= TIME_LIMIT
    }

    /// Index `i` names a live agent.
    pub open spec fn live_agent(self, i: int) -> bool {
        0 <= i < self.agents@.len() && self.agents@[i] is Some
    }

    /// Index `i` names a live food item.
    pub open spec fn live_food(self, i: int) -> bool {
        0 <= i < self.foods@.len() && self.foods@[i] is Some
    }

    /// The agent in slot `i`.
    pub open spec fn agent_at(self, i: int) -> Agent
        recommends
            self.live_agent(i),
    {
        self.agents@[i]->Some_0
    }

    /// The food item in slot `i`.
    pub open spec fn food_at(self, i: int) -> Food
        recommends
            self.live_food(i),
    {
        self.foods@[i]->Some_0
    }

    /// An empty world at time zero.
    pub fn new() -> (r: World)
        ensures
            r.agents@.len() == 0,
            r.foods@.len() == 0,
            r.elapsed == 0,
            r.wf(),
    {
        World { agents: Vec::new(), foods: Vec::new(), elapsed: 0 }
    }

    /// Number of live agents.
    pub fn agent_count(&self) -> (r: usize)
        ensures
            r as int == count_some(self.agents@),
    {
        let mut c: usize = 0;
        let n: usize = self.agents.len();
        let mut i: usize = 0;
        proof {
            lemma_count_some_le_len(self.agents@);
        }
        while i < n
            invariant
                n == self.agents@.len(),
                0 <= i <= n,
                c as int == count_some(self.agents@.take(i as int)),
                c <= i,
            decreases n - i,
        {
            proof {
                assert(self.agents@.take(i + 1).drop_last() =~= self.agents@.take(i as int));
                assert(self.agents@.take(i + 1).last() == self.agents@[i as int]);
            }
            if self.agents[i].is_some() {
                c = c + 1;
            }
            i = i + 1;
        }
        proof {
            assert(self.agents@.take(n as int) =~= self.agents@);
        }
        c
    }

    /// Number of live food items.
    pub fn food_count(&self) -> (r: usize)
        ensures
            r as int == count_some(self.foods@),
    {
        let mut c: usize = 0;
        let n: usize = self.foods.len();
        let mut i: usize = 0;
        proof {
            lemma_count_some_le_len(self.foods@);
        }
        while i < n
            invariant
                n == self.foods@.len(),
                0 <= i <= n,
                c as int == count_some(self.foods@.take(i as int)),
                c <= i,
            decreases n - i,
        {
            proof {
                assert(self.foods@.take(i + 1).drop_last() =~= self.foods@.take(i as int));
                assert(self.foods@.take(i + 1).last() == self.foods@[i as int]);
            }
            if self.foods[i].is_some() {
                c = c + 1;
            }
            i = i + 1;
        }
        proof {
            assert(self.foods@.take(n as int) =~= self.foods@);
        }
        c
    }

    /// Append a newborn agent and return its slot index.
    pub fn spawn_agent(&mut self, pos: Vec2, heading: Vec2, generation: u64) -> (idx: usize)
        requires
            old(self).wf(),
            in_box(pos, POS_LIMIT as int),
            in_box(heading, HEAD_LIMIT as int),
            old(self).agents@.len() < usize::MAX,
        ensures
            idx as int == old(self).agents@.len(),
            final(self).agents@.len() == old(self).agents@.len() + 1,
            forall|i: int|
                0 <= i < old(self).agents@.len() ==> final(self).agents@[i] == old(self).agents@[i],
            final(self).live_agent(idx as int),
            final(self).agent_at(idx as int).is_newborn(pos, heading, generation),
            final(self).agent_at(idx as int).wf(),
            final(self).foods == old(self).foods,
            final(self).elapsed == old(self).elapsed,
            final(self).wf(),
    {
        let idx = self.agents.len();
        let a = Agent::spawned(pos, heading, generation);
        self.agents.push(Some(a));
        idx
    }

    /// Let the engine report an agent's integrated motion state back into
    /// the world. A stale index changes nothing.
    pub fn set_motion(&mut self, idx: usize, pos: Vec2, heading: Vec2, speed: i64, angvel: i64)
        requires
            old(self).wf(),
            in_box(pos, POS_LIMIT as int),
            in_box(heading, HEAD_LIMIT as int),
        ensures
            !old(self).live_agent(idx as int) ==> *final(self) == *old(self),
            old(self).live_agent(idx as int) ==> {
                &&& final(self).agents@.len() == old(self).agents@.len()
                &&& forall|i: int|
                    0 <= i < old(self).agents@.len() && i != idx as int ==> final(self).agents@[i]
                        == old(self).agents@[i]
                &&& final(self).live_agent(idx as int)
                &&& final(self).agent_at(idx as int) == (Agent {
                    pos,
                    heading,
                    speed,
                    angvel,
                    ..old(self).agent_at(idx as int)
                })
            },
            final(self).foods == old(self).foods,
            final(self).elapsed == old(self).elapsed,
            final(self).wf(),
    {
        if idx < self.agents.len() && self.agents[idx].is_some() {
            if let Some(a) = &mut self.agents[idx] {
                a.pos = pos;
                a.heading = heading;
                a.speed = speed;
                a.angvel = angvel;
            }
        }
    }

    /// Record on `observer` a sighting of another agent. Self-overlaps and
    /// references to removed entities are skipped without fault; otherwise
    /// the computed (angle, distance) entry is appended to the observer's
    /// agent-sight buffer — on the observer only.
    pub fn sense_agent_event(&mut self, observer: usize, target: usize)
        requires
            old(self).wf(),
        ensures
            final(self).foods == old(self).foods,
            final(self).elapsed == old(self).elapsed,
            final(self).wf(),
            (observer == target || !old(self).live_agent(observer as int) || !old(self).live_agent(target as int)) ==> *final(self) == *old(self),
            (observer != target && old(self).live_agent(observer as int) && old(self).live_agent(
                target as int,
            )) ==> {
                let o = old(self).agent_at(observer as int);
                let e = sighting_of(o, old(self).agent_at(target as int).pos);
                &&& final(self).agents@.len() == old(self).agents@.len()
                &&& forall|i: int|
                    0 <= i < old(self).agents@.len() && i != observer as int ==> final(self).agents@[i] == old(self).agents@[i]
                &&& final(self).live_agent(observer as int)
                &&& final(self).agent_at(observer as int).brain.sight_minions@
                    == o.brain.sight_minions@.push(e)
                &&& final(self).agent_at(observer as int).brain.sight_food@
                    == o.brain.sight_food@
                &&& Agent::same_but_buffers(o, final(self).agent_at(observer as int))
            },
    {
        if observer == target || observer >= self.agents.len() || target >= self.agents.len() {
            return ;
        }
        if self.agents[observer].is_none() || self.agents[target].is_none() {
            return ;
        }
        let mut opos = Vec2 { x: 0, y: 0 };
        let mut ohead = Vec2 { x: 0, y: 0 };
        let mut orad: i64 = 1;
        if let Some(o) = &self.agents[observer] {
            opos = o.pos;
            ohead = o.heading;
            orad = o.size.radius;
        }
        let mut tpos = Vec2 { x: 0, y: 0 };
        if let Some(t) = &self.agents[target] {
            tpos = t.pos;
        }
        let e = crate::sensor::sense_pair(opos, ohead, orad, tpos);
        if let Some(o) = &mut self.agents[observer] {
            o.brain.sight_minions.push(e);
        }
    }

    /// Record on `observer` a sighting of a food item; skipped without fault
    /// when either reference is stale.
    pub fn sense_food_event(&mut self, observer: usize, food_idx: usize)
        requires
            old(self).wf(),
        ensures
            final(self).foods == old(self).foods,
            final(self).elapsed == old(self).elapsed,
            final(self).wf(),
            (!old(self).live_agent(observer as int) || !old(self).live_food(food_idx as int))
                ==> *final(self) == *old(self),
            (old(self).live_agent(observer as int) && old(self).live_food(food_idx as int)) ==> {
                let o = old(self).agent_at(observer as int);
                let e = sighting_of(o, old(self).food_at(food_idx as int).pos);
                &&& final(self).agents@.len() == old(self).agents@.len()
                &&& forall|i: int|
                    0 <= i < old(self).agents@.len() && i != observer as int ==> final(self).agents@[i] == old(self).agents@[i]
                &&& final(self).live_agent(observer as int)
                &&& final(self).agent_at(observer as int).brain.sight_food@
                    == o.brain.sight_food@.push(e)
                &&& final(self).agent_at(observer as int).brain.sight_minions@
                    == o.brain.sight_minions@
                &&& Agent::same_but_buffers(o, final(self).agent_at(observer as int))
            },
    {
        if observer >= self.agents.len() || food_idx >= self.foods.len() {
            return ;
        }
        if self.agents[observer].is_none() || self.foods[food_idx].is_none() {
            return ;
        }
        let mut opos = Vec2 { x: 0, y: 0 };
        let mut ohead = Vec2 { x: 0, y: 0 };
        let mut orad: i64 = 1;
        if let Some(o) = &self.agents[observer] {
            opos = o.pos;
            ohead = o.heading;
            orad = o.size.radius;
        }
        let mut tpos = Vec2 { x: 0, y: 0 };
        if let Some(t) = &self.foods[food_idx] {
            tpos = t.pos;
        }
        let e = crate::sensor::sense_pair(opos, ohead, orad, tpos);
        if let Some(o) = &mut self.agents[observer] {
            o.brain.sight_food.push(e);
        }
    }

    /// Reduce the agent's two sight buffers to their nearest entries, clear
    /// them, and hand back the eight controller inputs of this tick:
    /// `[speed, angular velocity, health, hunger, nearest-agent angle,
    /// 1/nearest-agent distance, nearest-food angle, 1/nearest-food
    /// distance]`. A stale index yields `None` and changes nothing.
    pub fn tick_inputs(&mut self, idx: usize) -> (r: Option<Vec<i64>>)
        requires
            old(self).wf(),
        ensures
            final(self).foods == old(self).foods,
            final(self).elapsed == old(self).elapsed,
            final(self).wf(),
            !old(self).live_agent(idx as int) ==> (*final(self) == *old(self) && r is None),
            old(self).live_agent(idx as int) ==> {
                let a0 = old(self).agent_at(idx as int);
                let nm = nearest(a0.brain.sight_minions@);
                let nf = nearest(a0.brain.sight_food@);
                &&& r is Some
                &&& r->Some_0@ == seq![
                    a0.speed,
                    a0.angvel,
                    a0.health.health,
                    a0.hunger.filled,
                    nm.angle,
                    inv_dist(nm.dist as int) as i64,
                    nf.angle,
                    inv_dist(nf.dist as int) as i64,
                ]
                &&& final(self).agents@.len() == old(self).agents@.len()
                &&& forall|i: int|
                    0 <= i < old(self).agents@.len() && i != idx as int ==> final(self).agents@[i]
                        == old(self).agents@[i]
                &&& final(self).live_agent(idx as int)
                &&& final(self).agent_at(idx as int).brain.sight_minions@.len() == 0
                &&& final(self).agent_at(idx as int).brain.sight_food@.len() == 0
                &&& Agent::same_but_buffers(a0, final(self).agent_at(idx as int))
            },
    {
        if idx >= self.agents.len() {
            return None;
        }
        if self.agents[idx].is_none() {
            return None;
        }
        let mut nm = SightEntry { angle: 0, dist: DIST_INF };
        let mut nf = SightEntry { angle: 0, dist: DIST_INF };
        let mut speed: i64 = 0;
        let mut angvel: i64 = 0;
        let mut hh: i64 = 0;
        let mut hf: i64 = 0;
        if let Some(a) = &self.agents[idx] {
            nm = crate::sensor::reduce_buffer(&a.brain.sight_minions);
            nf = crate::sensor::reduce_buffer(&a.brain.sight_food);
            speed = a.speed;
            angvel = a.angvel;
            hh = a.health.health;
            hf = a.hunger.filled;
            proof {
                lemma_nearest_ranges(a.brain.sight_minions@);
                lemma_nearest_ranges(a.brain.sight_food@);
            }
        }
        if let Some(a) = &mut self.agents[idx] {
            a.brain.sight_minions.clear();
            a.brain.sight_food.clear();
        }
        let inv_m = crate::sensor::inv_dist_exec(nm.dist);
        let inv_f = crate::sensor::inv_dist_exec(nf.dist);
        let mut v: Vec<i64> = Vec::new();
        v.push(speed);
        v.push(angvel);
        v.push(hh);
        v.push(hf);
        v.push(nm.angle);
        v.push(inv_m);
        v.push(nf.angle);
        v.push(inv_f);
        proof {
            let a0 = old(self).agent_at(idx as int);
            assert(v@ =~= seq![
                a0.speed,
                a0.angvel,
                a0.health.health,
                a0.hunger.filled,
                nearest(a0.brain.sight_minions@).angle,
                inv_dist(nearest(a0.brain.sight_minions@).dist as int) as i64,
                nearest(a0.brain.sight_food@).angle,
                inv_dist(nearest(a0.brain.sight_food@).dist as int) as i64,
            ]);
        }
        Some(v)
    }

    /// Turn the controller's two outputs into this tick's actuation: the
    /// first, scaled by 20 and clamped to the force limit, becomes the
    /// linear force magnitude along the heading; the second, divided by 100
    /// and clamped, becomes torque. An output vector of the wrong length is
    /// a controller fault: the agent emits zero force and torque for the
    /// tick. A stale index changes nothing.
    pub fn apply_actuation(&mut self, idx: usize, outputs: &Vec<i64>)
        requires
            old(self).wf(),
        ensures
            final(self).foods == old(self).foods,
            final(self).elapsed == old(self).elapsed,
            final(self).wf(),
            !old(self).live_agent(idx as int) ==> *final(self) == *old(self),
            old(self).live_agent(idx as int) ==> {
                let a0 = old(self).agent_at(idx as int);
                let a1 = final(self).agent_at(idx as int);
                &&& final(self).agents@.len() == old(self).agents@.len()
                &&& forall|i: int|
                    0 <= i < old(self).agents@.len() && i != idx as int ==> final(self).agents@[i]
                        == old(self).agents@[i]
                &&& final(self).live_agent(idx as int)
                &&& a1.force as int == if outputs@.len() == 2 {
                    clamp_i(20 * outputs@[0], -FORCE_LIMIT as int, FORCE_LIMIT as int)
                } else {
                    0
                }
                &&& a1.torque as int == if outputs@.len() == 2 {
                    tdiv(clamp_i(outputs@[1] as int, -MICRO as int, MICRO as int), 100)
                } else {
                    0
                }
                &&& Agent::same_but_actuation(a0, a1)
            },
    {
        if idx >= self.agents.len() {
            return ;
        }
        if self.agents[idx].is_none() {
            return ;
        }
        let mut force: i64 = 0;
        let mut torque: i64 = 0;
        if outputs.len() == 2 {
            let c0 = crate::geom::clamp64(outputs[0], -MICRO, MICRO);
            force = 20 * c0;
            let c1 = crate::geom::clamp64(outputs[1], -MICRO, MICRO);
            let q: u64 = if c1 >= 0 {
                (c1 as u64) / 100
            } else {
                ((-c1) as u64) / 100
            };
            torque = if c1 >= 0 {
                q as i64
            } else {
                -(q as i64)
            };
            proof {
                assert(force as int == clamp_i(
                    20 * outputs@[0],
                    -FORCE_LIMIT as int,
                    FORCE_LIMIT as int,
                ));
                if c1 >= 0 {
                    crate::geom::lemma_div_bound(c1 as int, 10_000, 100);
                } else {
                    crate::geom::lemma_div_bound(-c1 as int, 10_000, 100);
                }
            }
        }
        if let Some(a) = &mut self.agents[idx] {
            a.force = force;
            a.torque = torque;
        }
    }

    /// Resolve one weapon-against-agent overlap: the victim loses
    /// `weapon.damage * dt * victim.protection`; the attacker regains a
    /// third of it as hunger and half of it as health (combat
    /// self-regeneration). A self-overlap or a stale reference is skipped
    /// without fault.
    pub fn resolve_attack(&mut self, attacker: usize, victim: usize, dt: i64)
        requires
            old(self).wf(),
            0 < dt <= MICRO,
        ensures
            final(self).foods == old(self).foods,
            final(self).elapsed == old(self).elapsed,
            final(self).wf(),
            (attacker == victim || !old(self).live_agent(attacker as int) || !old(
                self).live_agent(victim as int)) ==> *final(self) == *old(self),
            (attacker != victim && old(self).live_agent(attacker as int) && old(self).live_agent(
                victim as int,
            )) ==> {
                let a0 = old(self).agent_at(attacker as int);
                let v0 = old(self).agent_at(victim as int);
                let dmg = damage_of(a0.weapon.damage as int, dt as int, v0.health.protection as int);
                &&& final(self).agents@.len() == old(self).agents@.len()
                &&& forall|i: int|
                    0 <= i < old(self).agents@.len() && i != attacker as int && i != victim as int
                        ==> final(self).agents@[i] == old(self).agents@[i]
                &&& final(self).live_agent(attacker as int)
                &&& final(self).live_agent(victim as int)
                &&& final(self).agent_at(attacker as int).hunger.filled as int == clamp_energy(
                    a0.hunger.filled + tdiv(dmg, 3),
                )
                &&& final(self).agent_at(attacker as int).health.health as int == clamp_energy(
                    a0.health.health + tdiv(dmg, 2),
                )
                &&& Agent::same_but_energy(a0, final(self).agent_at(attacker as int))
                &&& final(self).agent_at(victim as int).health.health as int == clamp_energy(
                    v0.health.health - dmg,
                )
                &&& final(self).agent_at(victim as int).hunger.filled == v0.hunger.filled
                &&& Agent::same_but_energy(v0, final(self).agent_at(victim as int))
            },
    {
        if attacker == victim || attacker >= self.agents.len() || victim >= self.agents.len() {
            return ;
        }
        if self.agents[attacker].is_none() || self.agents[victim].is_none() {
            return ;
        }
        let mut wdmg: i64 = 0;
        if let Some(a) = &self.agents[attacker] {
            wdmg = a.weapon.damage;
        }
        let mut prot: i64 = 0;
        if let Some(v) = &self.agents[victim] {
            prot = v.health.protection;
        }
        proof {
            assert(0 <= wdmg as int * dt as int <= 1_000_000_000_000) by (nonlinear_arith)
                requires
                    0 <= wdmg <= 1_000_000,
                    0 < dt <= 1_000_000,
            ;
        }
        let q1: i64 = ((wdmg as u128 * dt as u128) / (MICRO as u128)) as i64;
        proof {
            crate::geom::lemma_div_bound(wdmg as int * dt as int, 1_000_000, MICRO as int);
            assert(0 <= q1 as int * prot as int <= 10_000_000_000_000) by (nonlinear_arith)
                requires
                    0 <= q1 <= 1_000_000,
                    0 <= prot <= 10_000_000,
            ;
        }
        let dmg: i64 = ((q1 as u128 * prot as u128) / (MICRO as u128)) as i64;
        proof {
            crate::geom::lemma_div_bound(q1 as int * prot as int, 10_000_000, MICRO as int);
        }
        let d3: i64 = ((dmg as u64) / 3) as i64;
        let d2: i64 = ((dmg as u64) / 2) as i64;
        proof {
            crate::geom::lemma_div_bound(dmg as int, 10_000_000, 1);
            vstd::arithmetic::div_mod::lemma_div_pos_is_pos(dmg as int, 3);
            vstd::arithmetic::div_mod::lemma_div_pos_is_pos(dmg as int, 2);
            vstd::arithmetic::div_mod::lemma_div_is_ordered(dmg as int, 10_000_000, 3);
            vstd::arithmetic::div_mod::lemma_div_is_ordered(dmg as int, 10_000_000, 2);
        }
        if let Some(a) = &mut self.agents[attacker] {
            a.hunger.filled = crate::units::clamp_energy_exec(
                a.hunger.filled as i128 + d3 as i128,
            );
            a.health.health = crate::units::clamp_energy_exec(a.health.health as i128 + d2 as i128);
        }
        if let Some(v) = &mut self.agents[victim] {
            v.health.health = crate::units::clamp_energy_exec(v.health.health as i128 - dmg as i128);
        }
    }

    /// Resolve one weapon-against-food overlap: the food loses
    /// `weapon.damage * dt * food.protection` of health and the attacker
    /// gains one and a half times that as hunger. Stale references are
    /// skipped without fault.
    pub fn resolve_feed(&mut self, attacker: usize, food_idx: usize, dt: i64)
        requires
            old(self).wf(),
            0 < dt <= MICRO,
        ensures
            final(self).elapsed == old(self).elapsed,
            final(self).wf(),
            (!old(self).live_agent(attacker as int) || !old(self).live_food(food_idx as int))
                ==> *final(self) == *old(self),
            (old(self).live_agent(attacker as int) && old(self).live_food(food_idx as int)) ==> {
                let a0 = old(self).agent_at(attacker as int);
                let f0 = old(self).food_at(food_idx as int);
                let dmg = damage_of(a0.weapon.damage as int, dt as int, f0.health.protection as int);
                &&& final(self).agents@.len() == old(self).agents@.len()
                &&& final(self).foods@.len() == old(self).foods@.len()
                &&& forall|i: int|
                    0 <= i < old(self).agents@.len() && i != attacker as int ==> final(
                        self).agents@[i] == old(self).agents@[i]
                &&& forall|i: int|
                    0 <= i < old(self).foods@.len() && i != food_idx as int ==> final(
                        self).foods@[i] == old(self).foods@[i]
                &&& final(self).live_agent(attacker as int)
                &&& final(self).live_food(food_idx as int)
                &&& final(self).agent_at(attacker as int).hunger.filled as int == clamp_energy(
                    a0.hunger.filled + tdiv(3 * dmg, 2),
                )
                &&& final(self).agent_at(attacker as int).health == a0.health
                &&& Agent::same_but_energy(a0, final(self).agent_at(attacker as int))
                &&& final(self).food_at(food_idx as int).health.health as int == clamp_energy(
                    f0.health.health - dmg,
                )
                &&& final(self).food_at(food_idx as int).health.protection
                    == f0.health.protection
                &&& final(self).food_at(food_idx as int).size == f0.size
                &&& final(self).food_at(food_idx as int).pos == f0.pos
            },
    {
        if attacker >= self.agents.len() || food_idx >= self.foods.len() {
            return ;
        }
        if self.agents[attacker].is_none() || self.foods[food_idx].is_none() {
            return ;
        }
        let mut wdmg: i64 = 0;
        if let Some(a) = &self.agents[attacker] {
            wdmg = a.weapon.damage;
        }
        let mut prot: i64 = 0;
        if let Some(f) = &self.foods[food_idx] {
            prot = f.health.protection;
        }
        proof {
            assert(0 <= wdmg as int * dt as int <= 1_000_000_000_000) by (nonlinear_arith)
                requires
                    0 <= wdmg <= 1_000_000,
                    0 < dt <= 1_000_000,
            ;
        }
        let q1: i64 = ((wdmg as u128 * dt as u128) / (MICRO as u128)) as i64;
        proof {
            crate::geom::lemma_div_bound(wdmg as int * dt as int, 1_000_000, MICRO as int);
            assert(0 <= q1 as int * prot as int <= 10_000_000_000_000) by (nonlinear_arith)
                requires
                    0 <= q1 <= 1_000_000,
                    0 <= prot <= 10_000_000,
            ;
        }
        let dmg: i64 = ((q1 as u128 * prot as u128) / (MICRO as u128)) as i64;
        proof {
            crate::geom::lemma_div_bound(q1 as int * prot as int, 10_000_000, MICRO as int);
        }
        let gain: i64 = ((3 * dmg as u64) / 2) as i64;
        proof {
            vstd::arithmetic::div_mod::lemma_div_pos_is_pos(3 * dmg as int, 2);
            crate::geom::lemma_div_bound(3 * dmg as int, 15_000_000, 2);
        }
        if let Some(a) = &mut self.agents[attacker] {
            a.hunger.filled = crate::units::clamp_energy_exec(
                a.hunger.filled as i128 + gain as i128,
            );
        }
        if let Some(f) = &mut self.foods[food_idx] {
            f.health.health = crate::units::clamp_energy_exec(f.health.health as i128 - dmg as i128);
        }
    }

    /// Run one tick of homeostasis over every live agent.
    pub fn update_hunger(&mut self, dt: i64)
        requires
            old(self).wf(),
            0 < dt <= MICRO,
        ensures
            final(self).foods == old(self).foods,
            final(self).elapsed == old(self).elapsed,
            final(self).wf(),
            final(self).agents@.len() == old(self).agents@.len(),
            forall|i: int|
                0 <= i < old(self).agents@.len() ==> match old(self).agents@[i] {
                    None => final(self).agents@[i] == old(self).agents@[i],
                    Some(a0) => {
                        &&& (#[trigger] final(self).agents@[i]) is Some
                        &&& final(self).agents@[i]->Some_0.health.health as int == homeo_of(
                            a0,
                            dt as int,
                        ).0
                        &&& final(self).agents@[i]->Some_0.hunger.filled as int == homeo_of(
                            a0,
                            dt as int,
                        ).1
                        &&& Agent::same_but_energy(a0, final(self).agents@[i]->Some_0)
                    },
                },
    {
        let n: usize = self.agents.len();
        let mut i: usize = 0;
        while i < n
            invariant
                old(self).wf(),
                0 < dt <= MICRO,
                n == old(self).agents@.len(),
                self.agents@.len() == n,
                0 <= i <= n,
                self.foods == old(self).foods,
                self.elapsed == old(self).elapsed,
                self.wf(),
                forall|j: int| i <= j < n ==> self.agents@[j] == old(self).agents@[j],
                forall|j: int|
                    0 <= j < i ==> match old(self).agents@[j] {
                        None => self.agents@[j] == old(self).agents@[j],
                        Some(a0) => {
                            &&& (#[trigger] self.agents@[j]) is Some
                            &&& self.agents@[j]->Some_0.health.health as int == homeo_of(
                                a0,
                                dt as int,
                            ).0
                            &&& self.agents@[j]->Some_0.hunger.filled as int == homeo_of(
                                a0,
                                dt as int,
                            ).1
                            &&& Agent::same_but_energy(a0, self.agents@[j]->Some_0)
                        },
                    },
            decreases n - i,
        {
            proof {
                assert(slot_wf(self.agents@[i as int]));
            }
            if let Some(a) = &mut self.agents[i] {
                a.homeostasis_tick(dt);
            }
            i = i + 1;
        }
    }

    /// Age every live agent by `dt`, saturating at the age rail.
    pub fn age_tick(&mut self, dt: i64)
        requires
            old(self).wf(),
            0 < dt <= MICRO,
        ensures
            final(self).foods == old(self).foods,
            final(self).elapsed == old(self).elapsed,
            final(self).wf(),
            final(self).agents@.len() == old(self).agents@.len(),
            forall|i: int|
                0 <= i < old(self).agents@.len() ==> match old(self).agents@[i] {
                    None => final(self).agents@[i] == old(self).agents@[i],
                    Some(a0) => (#[trigger] final(self).agents@[i]) == Some(
                        Agent {
                            age: crate::agent::Age {
                                age: (if a0.age.age + dt <= AGE_LIMIT as int {
                                    (a0.age.age + dt) as i64
                                } else {
                                    AGE_LIMIT
                                }),
                                lifespan: a0.age.lifespan,
                            },
                            ..a0
                        },
                    ),
                },
    {
        let n: usize = self.agents.len();
        let mut i: usize = 0;
        while i < n
            invariant
                old(self).wf(),
                0 < dt <= MICRO,
                n == old(self).agents@.len(),
                self.agents@.len() == n,
                0 <= i <= n,
                self.foods == old(self).foods,
                self.elapsed == old(self).elapsed,
                self.wf(),
                forall|j: int| i <= j < n ==> self.agents@[j] == old(self).agents@[j],
                forall|j: int|
                    0 <= j < i ==> match old(self).agents@[j] {
                        None => self.agents@[j] == old(self).agents@[j],
                        Some(a0) => (#[trigger] self.agents@[j]) == Some(
                            Agent {
                                age: crate::agent::Age {
                                    age: (if a0.age.age + dt <= AGE_LIMIT as int {
                                        (a0.age.age + dt) as i64
                                    } else {
                                        AGE_LIMIT
                                    }),
                                    lifespan: a0.age.lifespan,
                                },
                                ..a0
                            },
                        ),
                    },
            decreases n - i,
        {
            proof {
                assert(slot_wf(self.agents@[i as int]));
            }
            if let Some(a) = &mut self.agents[i] {
                if a.age.age <= AGE_LIMIT - dt {
                    a.age.age = a.age.age + dt;
                } else {
                    a.age.age = AGE_LIMIT;
                }
            }
            i = i + 1;
        }
    }

    /// Remove every entity whose health has reached zero or below. An
    /// agent's detector and weapon zones are part of its record, so they
    /// vanish with it.
    pub fn remove_depleted(&mut self)
        requires
            old(self).wf(),
        ensures
            final(self).elapsed == old(self).elapsed,
            final(self).wf(),
            final(self).agents@.len() == old(self).agents@.len(),
            final(self).foods@.len() == old(self).foods@.len(),
            forall|i: int|
                0 <= i < old(self).agents@.len() ==> (#[trigger] final(self).agents@[i]) == (
                match old(self).agents@[i] {
                    Some(a0) => if a0.health.health <= 0 {
                        None
                    } else {
                        old(self).agents@[i]
                    },
                    None => None,
                }),
            forall|i: int|
                0 <= i < old(self).foods@.len() ==> (#[trigger] final(self).foods@[i]) == (
                match old(self).foods@[i] {
                    Some(f0) => if f0.health.health <= 0 {
                        None
                    } else {
                        old(self).foods@[i]
                    },
                    None => None,
                }),
    {
        let n: usize = self.agents.len();
        let mut i: usize = 0;
        while i < n
            invariant
                old(self).wf(),
                n == old(self).agents@.len(),
                self.agents@.len() == n,
                0 <= i <= n,
                self.foods == old(self).foods,
                self.elapsed == old(self).elapsed,
                self.wf(),
                forall|j: int| i <= j < n ==> self.agents@[j] == old(self).agents@[j],
                forall|j: int|
                    0 <= j < i ==> (#[trigger] self.agents@[j]) == (match old(self).agents@[j] {
                        Some(a0) => if a0.health.health <= 0 {
                            None
                        } else {
                            old(self).agents@[j]
                        },
                        None => None,
                    }),
            decreases n - i,
        {
            let mut dead = false;
            if let Some(a) = &self.agents[i] {
                if a.health.health <= 0 {
                    dead = true;
                }
            }
            if dead {
                self.agents.set(i, None);
            }
            i = i + 1;
        }
        let m: usize = self.foods.len();
        let mut k: usize = 0;
        while k < m
            invariant
                old(self).wf(),
                m == old(self).foods@.len(),
                self.foods@.len() == m,
                0 <= k <= m,
                self.elapsed == old(self).elapsed,
                self.wf(),
                self.agents@.len() == old(self).agents@.len(),
                forall|j: int|
                    0 <= j < old(self).agents@.len() ==> (#[trigger] self.agents@[j]) == (
                    match old(self).agents@[j] {
                        Some(a0) => if a0.health.health <= 0 {
                            None
                        } else {
                            old(self).agents@[j]
                        },
                        None => None,
                    }),
                forall|j: int| k <= j < m ==> self.foods@[j] == old(self).foods@[j],
                forall|j: int|
                    0 <= j < k ==> (#[trigger] self.foods@[j]) == (match old(self).foods@[j] {
                        Some(f0) => if f0.health.health <= 0 {
                            None
                        } else {
                            old(self).foods@[j]
                        },
                        None => None,
                    }),
            decreases m - k,
        {
            let mut dead = false;
            if let Some(f) = &self.foods[k] {
                if f.health.health <= 0 {
                    dead = true;
                }
            }
            if dead {
                self.foods.set(k, None);
            }
            k = k + 1;
        }
    }

    /// Teleport every agent that left the world square to the opposite
    /// side; velocity and heading are untouched.
    pub fn wrap_positions(&mut self)
        requires
            old(self).wf(),
        ensures
            final(self).foods == old(self).foods,
            final(self).elapsed == old(self).elapsed,
            final(self).wf(),
            final(self).agents@.len() == old(self).agents@.len(),
            forall|i: int|
                0 <= i < old(self).agents@.len() ==> match old(self).agents@[i] {
                    None => final(self).agents@[i] == old(self).agents@[i],
                    Some(a0) => (#[trigger] final(self).agents@[i]) == Some(
                        Agent {
                            pos: Vec2 {
                                x: crate::geom::wrap_coord(a0.pos.x as int) as i64,
                                y: crate::geom::wrap_coord(a0.pos.y as int) as i64,
                            },
                            ..a0
                        },
                    ),
                },
    {
        let n: usize = self.agents.len();
        let mut i: usize = 0;
        while i < n
            invariant
                old(self).wf(),
                n == old(self).agents@.len(),
                self.agents@.len() == n,
                0 <= i <= n,
                self.foods == old(self).foods,
                self.elapsed == old(self).elapsed,
                self.wf(),
                forall|j: int| i <= j < n ==> self.agents@[j] == old(self).agents@[j],
                forall|j: int|
                    0 <= j < i ==> match old(self).agents@[j] {
                        None => self.agents@[j] == old(self).agents@[j],
                        Some(a0) => (#[trigger] self.agents@[j]) == Some(
                            Agent {
                                pos: Vec2 {
                                    x: crate::geom::wrap_coord(a0.pos.x as int) as i64,
                                    y: crate::geom::wrap_coord(a0.pos.y as int) as i64,
                                },
                                ..a0
                            },
                        ),
                    },
            decreases n - i,
        {
            proof {
                assert(slot_wf(self.agents@[i as int]));
            }
            if let Some(a) = &mut self.agents[i] {
                a.pos = Vec2 {
                    x: crate::geom::wrap_coord_exec(a.pos.x),
                    y: crate::geom::wrap_coord_exec(a.pos.y),
                };
            }
            i = i + 1;
        }
    }

    /// Populate a fresh world: `n` agents at uniformly random positions in
    /// the spawn square, each carrying a thrice-mutated copy of a fresh
    /// controller.
    pub fn init_population(&mut self, n: usize)
        requires
            old(self).wf(),
            old(self).agents@.len() + n <= usize::MAX,
        ensures
            final(self).foods == old(self).foods,
            final(self).elapsed == old(self).elapsed,
            final(self).wf(),
            final(self).agents@.len() == old(self).agents@.len() + n,
            forall|i: int|
                0 <= i < old(self).agents@.len() ==> final(self).agents@[i] == old(self).agents@[i],
            forall|k: int|
                old(self).agents@.len() <= k < old(self).agents@.len() + n ==> {
                    &&& final(self).live_agent(k)
                    &&& final(self).agent_at(k).is_newborn(
                        final(self).agent_at(k).pos,
                        Vec2 { x: MICRO, y: 0 },
                        3,
                    )
                    &&& in_box(final(self).agent_at(k).pos, SPAWN_BOUND as int)
                },
    {
        let n0: usize = self.agents.len();
        let mut k: usize = 0;
        while k < n
            invariant
                old(self).wf(),
                n0 == old(self).agents@.len(),
                n0 + n <= usize::MAX,
                0 <= k <= n,
                self.agents@.len() == n0 + k,
                self.foods == old(self).foods,
                self.elapsed == old(self).elapsed,
                self.wf(),
                forall|i: int| 0 <= i < n0 ==> self.agents@[i] == old(self).agents@[i],
                forall|j: int|
                    n0 <= j < n0 + k ==> {
                        &&& self.live_agent(j)
                        &&& self.agent_at(j).is_newborn(
                            self.agent_at(j).pos,
                            Vec2 { x: MICRO, y: 0 },
                            3,
                        )
                        &&& in_box(self.agent_at(j).pos, SPAWN_BOUND as int)
                    },
            decreases n - k,
        {
            let ghost prev = *self;
            let x = crate::randsrc::rand_in_range(-SPAWN_BOUND, SPAWN_BOUND);
            let y = crate::randsrc::rand_in_range(-SPAWN_BOUND, SPAWN_BOUND);
            self.spawn_agent(Vec2 { x, y }, Vec2 { x: MICRO, y: 0 }, 3);
            proof {
                assert forall|j: int| n0 <= j < n0 + k + 1 implies {
                    &&& self.live_agent(j)
                    &&& self.agent_at(j).is_newborn(
                        self.agent_at(j).pos,
                        Vec2 { x: MICRO, y: 0 },
                        3,
                    )
                    &&& in_box(self.agent_at(j).pos, SPAWN_BOUND as int)
                } by {
                    if j < n0 + k {
                        assert(self.agents@[j] == prev.agents@[j]);
                        assert(prev.live_agent(j));
                    } else {
                        assert(j == n0 + k);
                        assert(self.live_agent(j));
                        assert(self.agent_at(j).is_newborn(Vec2 { x, y }, Vec2 { x: MICRO, y: 0 }, 3));
                        assert(self.agent_at(j).pos == (Vec2 { x, y }));
                        assert(in_box(self.agent_at(j).pos, SPAWN_BOUND as int));
                    }
                }
            }
            k = k + 1;
        }
    }

    /// Scan every agent once; each fertile one (hunger above the threshold)
    /// pays the reproduction cost and an offspring is appended, placed 500
    /// units ahead of it and carrying a thrice-mutated copy of its
    /// controller. Returns the parents' indices in slot order; the `k`-th
    /// parent's offspring sits in slot `old_length + k`. Agents born during
    /// the pass are not scanned again until the next tick.
    pub fn reproduce_tick(&mut self) -> (parents: Vec<usize>)
        requires
            old(self).wf(),
            old(self).agents@.len() <= usize::MAX / 2,
        ensures
            final(self).foods == old(self).foods,
            final(self).elapsed == old(self).elapsed,
            final(self).wf(),
            parents@.map_values(|u: usize| u as int) == fertile_idxs(old(self).agents@),
            final(self).agents@.len() == old(self).agents@.len() + fertile_idxs(
                old(self).agents@,
            ).len(),
            forall|i: int|
                0 <= i < old(self).agents@.len() ==> (#[trigger] final(self).agents@[i]) == (
                if fertile(old(self).agents@[i]) {
                    Some(drained_parent(old(self).agents@[i]->Some_0))
                } else {
                    old(self).agents@[i]
                }),
            forall|k: int|
                0 <= k < fertile_idxs(old(self).agents@).len() ==> {
                    let parent = old(self).agents@[#[trigger] fertile_idxs(old(self).agents@)[k]]->Some_0;
                    &&& final(self).live_agent(old(self).agents@.len() + k)
                    &&& final(self).agent_at(old(self).agents@.len() + k).is_newborn(
                        offspring_pos(parent),
                        Vec2 { x: MICRO, y: 0 },
                        offspring_gen(parent.brain.generation),
                    )
                },
    {
        let n0: usize = self.agents.len();
        let mut parents: Vec<usize> = Vec::new();
        let mut i: usize = 0;
        proof {
            lemma_fertile_schedule(old(self).agents@);
        }
        while i < n0
            invariant
                old(self).wf(),
                n0 == old(self).agents@.len(),
                n0 <= usize::MAX / 2,
                0 <= i <= n0,
                self.foods == old(self).foods,
                self.elapsed == old(self).elapsed,
                self.wf(),
                self.agents@.len() == n0 + fertile_idxs(old(self).agents@.take(i as int)).len(),
                fertile_idxs(old(self).agents@.take(i as int)).len() <= i,
                parents@.map_values(|u: usize| u as int) == fertile_idxs(
                    old(self).agents@.take(i as int),
                ),
                forall|j: int| i <= j < n0 ==> self.agents@[j] == old(self).agents@[j],
                forall|j: int|
                    0 <= j < i ==> (#[trigger] self.agents@[j]) == (if fertile(
                        old(self).agents@[j],
                    ) {
                        Some(drained_parent(old(self).agents@[j]->Some_0))
                    } else {
                        old(self).agents@[j]
                    }),
                forall|k: int|
                    0 <= k < fertile_idxs(old(self).agents@.take(i as int)).len() ==> {
                        let parent = old(self).agents@[#[trigger] fertile_idxs(
                            old(self).agents@.take(i as int),
                        )[k]]->Some_0;
                        &&& self.live_agent(n0 + k)
                        &&& self.agent_at(n0 + k).is_newborn(
                            offspring_pos(parent),
                            Vec2 { x: MICRO, y: 0 },
                            offspring_gen(parent.brain.generation),
                        )
                    },
            decreases n0 - i,
        {
            let ghost s = old(self).agents@;
            let ghost prev = *self;
            proof {
                assert(s.take(i + 1).drop_last() =~= s.take(i as int));
                assert(s.take(i + 1).last() == s[i as int]);
                lemma_fertile_schedule(s.take(i as int));
            }
            let mut fertile_now = false;
            let mut ppos = Vec2 { x: 0, y: 0 };
            let mut phead = Vec2 { x: 0, y: 0 };
            let mut pgen: u64 = 0;
            if let Some(a) = &self.agents[i] {
                if a.hunger.filled > REPRO_THRESHOLD {
                    fertile_now = true;
                    ppos = a.pos;
                    phead = a.heading;
                    pgen = a.brain.generation;
                }
            }
            if fertile_now {
                proof {
                    assert(slot_wf(self.agents@[i as int]));
                }
                if let Some(a) = &mut self.agents[i] {
                    a.hunger.filled = a.hunger.filled - REPRO_COST;
                }
                let cx: i64 = crate::geom::clamp64(
                    ppos.x + OFFSPRING_OFFSET * phead.x,
                    -POS_LIMIT,
                    POS_LIMIT,
                );
                let cy: i64 = crate::geom::clamp64(
                    ppos.y + OFFSPRING_OFFSET * phead.y,
                    -POS_LIMIT,
                    POS_LIMIT,
                );
                let cgen: u64 = if pgen <= u64::MAX - 3 {
                    pgen + 3
                } else {
                    u64::MAX
                };
                self.spawn_agent(Vec2 { x: cx, y: cy }, Vec2 { x: MICRO, y: 0 }, cgen);
                parents.push(i);
                proof {
                    let idxs1 = fertile_idxs(s.take(i + 1));
                    let idxs0 = fertile_idxs(s.take(i as int));
                    assert(idxs1 == idxs0.push(i as int));
                    assert(parents@.map_values(|u: usize| u as int) =~= idxs1);
                    assert(Vec2 { x: cx, y: cy } == offspring_pos(s[i as int]->Some_0));
                    assert(cgen == offspring_gen(s[i as int]->Some_0.brain.generation));
                    assert forall|k: int| 0 <= k < idxs1.len() implies {
                        let parent = s[#[trigger] idxs1[k]]->Some_0;
                        &&& self.live_agent(n0 + k)
                        &&& self.agent_at(n0 + k).is_newborn(
                            offspring_pos(parent),
                            Vec2 { x: MICRO, y: 0 },
                            offspring_gen(parent.brain.generation),
                        )
                    } by {
                        if k < idxs0.len() {
                            assert(idxs1[k] == idxs0[k]);
                            assert(prev.live_agent(n0 + k));
                            assert(self.agents@[n0 + k] == prev.agents@[n0 + k]);
                        } else {
                            assert(idxs1[k] == i as int);
                        }
                    }
                }
            } else {
                proof {
                    assert(fertile_idxs(s.take(i + 1)) == fertile_idxs(s.take(i as int)));
                }
            }
            i = i + 1;
        }
        proof {
            assert(old(self).agents@.take(n0 as int) =~= old(self).agents@);
        }
        parents
    }

    /// Top up the food supply: when the live food count is below the target
    /// for the current elapsed time, spawn exactly one food item at a
    /// uniformly random position in the spawn square; otherwise spawn
    /// nothing.
    pub fn schedule_food(&mut self) -> (spawned: bool)
        requires
            old(self).wf(),
            old(self).foods@.len() < usize::MAX,
        ensures
            final(self).agents == old(self).agents,
            final(self).elapsed == old(self).elapsed,
            final(self).wf(),
            spawned <==> count_some(old(self).foods@) < crate::schedule::food_target(
                old(self).elapsed as int,
            ),
            !spawned ==> *final(self) == *old(self),
            spawned ==> {
                &&& final(self).foods@.len() == old(self).foods@.len() + 1
                &&& forall|i: int|
                    0 <= i < old(self).foods@.len() ==> final(self).foods@[i] == old(
                        self).foods@[i]
                &&& final(self).live_food(old(self).foods@.len() as int)
                &&& final(self).food_at(old(self).foods@.len() as int).health == (
                crate::agent::Health { health: crate::agent::FOOD_HEALTH, protection: MICRO })
                &&& final(self).food_at(old(self).foods@.len() as int).size == (
                crate::agent::Size { radius: crate::agent::FOOD_RADIUS })
                &&& in_box(
                    final(self).food_at(old(self).foods@.len() as int).pos,
                    SPAWN_BOUND as int,
                )
                &&& count_some(final(self).foods@) == count_some(old(self).foods@) + 1
            },
    {
        let target: i64 = crate::schedule::food_target_exec(self.elapsed);
        let count: usize = self.food_count();
        proof {
            lemma_count_some_le_len(self.foods@);
        }
        if count < (target as usize) {
            let x = crate::randsrc::rand_in_range(-SPAWN_BOUND, SPAWN_BOUND);
            let y = crate::randsrc::rand_in_range(-SPAWN_BOUND, SPAWN_BOUND);
            let f = Food::spawned(Vec2 { x, y });
            self.foods.push(Some(f));
            proof {
                assert(self.foods@.drop_last() =~= old(self).foods@);
            }
            true
        } else {
            false
        }
    }

    /// The oldest live agent, ties resolved to the highest index; `None`
    /// only when no agent is alive.
    pub fn best_agent(&self) -> (r: Option<usize>)
        ensures
            match r {
                None => forall|j: int| 0 <= j < self.agents@.len() ==> !self.live_agent(j),
                Some(i) => {
                    &&& self.live_agent(i as int)
                    &&& forall|j: int|
                        0 <= j < self.agents@.len() && self.live_agent(j) ==> self.agent_at(
                            j,
                        ).age.age <= self.agent_at(i as int).age.age
                    &&& forall|j: int|
                        (i as int) < j < self.agents@.len() && self.live_agent(j) ==> self.agent_at(
                            j,
                        ).age.age < self.agent_at(i as int).age.age
                },
            },
    {
        let n: usize = self.agents.len();
        let mut best: Option<usize> = None;
        let mut best_age: i64 = 0;
        let mut i: usize = 0;
        while i < n
            invariant
                n == self.agents@.len(),
                0 <= i <= n,
                match best {
                    None => forall|j: int| 0 <= j < i ==> !self.live_agent(j),
                    Some(b) => {
                        &&& self.live_agent(b as int)
                        &&& (b as int) < i
                        &&& best_age == self.agent_at(b as int).age.age
                        &&& forall|j: int|
                            0 <= j < i && self.live_agent(j) ==> self.agent_at(j).age.age
                                <= best_age
                        &&& forall|j: int|
                            (b as int) < j < i && self.live_agent(j) ==> self.agent_at(j).age.age
                                < best_age
                    },
                },
            decreases n - i,
        {
            if let Some(a) = &self.agents[i] {
                match best {
                    None => {
                        best = Some(i);
                        best_age = a.age.age;
                    },
                    Some(_) => {
                        if a.age.age >= best_age {
                            best = Some(i);
                            best_age = a.age.age;
                        }
                    },
                }
            }
            i = i + 1;
        }
        best
    }

    /// Actuation of a manually driven agent: forward/backward thrust at the
    /// full force limit along the heading, and a fixed small torque for
    /// turning. A later key wins where two conflict, as the input mapping
    /// has it; a stale index changes nothing.
    pub fn manual_actuation(&mut self, idx: usize, up: bool, down: bool, left: bool, right: bool)
        requires
            old(self).wf(),
        ensures
            final(self).foods == old(self).foods,
            final(self).elapsed == old(self).elapsed,
            final(self).wf(),
            !old(self).live_agent(idx as int) ==> *final(self) == *old(self),
            old(self).live_agent(idx as int) ==> {
                &&& final(self).agents@.len() == old(self).agents@.len()
                &&& forall|i: int|
                    0 <= i < old(self).agents@.len() && i != idx as int ==> final(self).agents@[i]
                        == old(self).agents@[i]
                &&& final(self).live_agent(idx as int)
                &&& final(self).agent_at(idx as int).force == (if down {
                    -FORCE_LIMIT as int
                } else if up {
                    FORCE_LIMIT as int
                } else {
                    0
                })
                &&& final(self).agent_at(idx as int).torque == (if right {
                    -2_000
                } else if left {
                    2_000
                } else {
                    0
                })
                &&& Agent::same_but_actuation(
                    old(self).agent_at(idx as int),
                    final(self).agent_at(idx as int),
                )
            },
    {
        if idx >= self.agents.len() {
            return ;
        }
        if self.agents[idx].is_none() {
            return ;
        }
        let force: i64 = if down {
            -FORCE_LIMIT
        } else if up {
            FORCE_LIMIT
        } else {
            0
        };
        let torque: i64 = if right {
            -2_000
        } else if left {
            2_000
        } else {
            0
        };
        if let Some(a) = &mut self.agents[idx] {
            a.force = force;
            a.torque = torque;
        }
    }

    /// Advance the simulation clock, saturating at the time rail.
    pub fn advance_time(&mut self, dt: i64)
        requires
            old(self).wf(),
            0 < dt <= MICRO,
        ensures
            final(self).elapsed as int == if old(self).elapsed + dt <= TIME_LIMIT as int {
                old(self).elapsed + dt
            } else {
                TIME_LIMIT as int
            },
            final(self).agents == old(self).agents,
            final(self).foods == old(self).foods,
            final(self).wf(),
    {
        if self.elapsed <= TIME_LIMIT - dt {
            self.elapsed = self.elapsed + dt;
        } else {
            self.elapsed = TIME_LIMIT;
        }
    }
}

} // verus!
