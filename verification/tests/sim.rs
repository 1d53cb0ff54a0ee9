use minion_sim::agent::{FOOD_HEALTH, FOOD_RADIUS};
use minion_sim::geom::{force_vector, isqrt, wrap_coord_exec, Vec2};
use minion_sim::poplog::PopulationLog;
use minion_sim::schedule::food_target_exec;
use minion_sim::sensor::{reduce_buffer, sense_pair, SightEntry, DIST_INF};
use minion_sim::units::{HEALTH_CAP, HUNGER_CAP, MICRO};
use minion_sim::world::World;

fn one_agent_world() -> World {
    let mut w = World::new();
    w.spawn_agent(Vec2 { x: 0, y: 0 }, Vec2 { x: MICRO, y: 0 }, 0);
    w
}

fn agent_field<F: FnOnce(&minion_sim::agent::Agent)>(w: &World, i: usize, f: F) {
    f(w.agents[i].as_ref().expect("agent should be alive"));
}

// --- nearest reduction ---

#[test]
fn nearest_reduction_picks_global_minimum() {
    let v = vec![
        SightEntry { angle: 10, dist: 500 },
        SightEntry { angle: -20, dist: 100 },
        SightEntry { angle: 30, dist: 300 },
    ];
    let r = reduce_buffer(&v);
    assert_eq!(r.angle, -20);
    assert_eq!(r.dist, 100);
}

#[test]
fn nearest_reduction_tie_keeps_first_seen() {
    let v = vec![
        SightEntry { angle: 1, dist: 100 },
        SightEntry { angle: 2, dist: 100 },
    ];
    let r = reduce_buffer(&v);
    assert_eq!(r.angle, 1);
}

#[test]
fn nearest_reduction_empty_gives_sentinel() {
    let v: Vec<SightEntry> = Vec::new();
    let r = reduce_buffer(&v);
    assert_eq!(r.angle, 0);
    assert_eq!(r.dist, DIST_INF);
}

// --- geometry ---

#[test]
fn isqrt_exact_values() {
    assert_eq!(isqrt(0), 0);
    assert_eq!(isqrt(15), 3);
    assert_eq!(isqrt(16), 4);
    assert_eq!(isqrt(1_000_000_000_000), 1_000_000);
    assert_eq!(isqrt(u64::MAX as u128), 4_294_967_295);
}

#[test]
fn sighting_straight_ahead() {
    // Target 32 units ahead of an agent of body radius 16: normalised
    // distance |d| / (2 r) = 1.0, cosine 1, angle at the lower end.
    let e = sense_pair(
        Vec2 { x: 0, y: 0 },
        Vec2 { x: MICRO, y: 0 },
        16_000_000,
        Vec2 { x: 32_000_000, y: 0 },
    );
    assert_eq!(e.dist, MICRO);
    assert_eq!(e.angle, -500_000);
}

#[test]
fn sighting_straight_behind() {
    let e = sense_pair(
        Vec2 { x: 0, y: 0 },
        Vec2 { x: MICRO, y: 0 },
        16_000_000,
        Vec2 { x: -32_000_000, y: 0 },
    );
    assert_eq!(e.dist, MICRO);
    assert_eq!(e.angle, 500_000);
}

#[test]
fn sighting_to_the_side_is_near_zero() {
    let e = sense_pair(
        Vec2 { x: 0, y: 0 },
        Vec2 { x: MICRO, y: 0 },
        16_000_000,
        Vec2 { x: 0, y: 32_000_000 },
    );
    assert_eq!(e.dist, MICRO);
    assert!(e.angle.abs() <= 100, "angle {} should be near zero", e.angle);
}

#[test]
fn sighting_coincident_positions_degrades_to_zero_angle() {
    let e = sense_pair(
        Vec2 { x: 5, y: 5 },
        Vec2 { x: MICRO, y: 0 },
        16_000_000,
        Vec2 { x: 5, y: 5 },
    );
    assert_eq!(e.dist, 0);
    assert_eq!(e.angle, 0);
}

#[test]
fn force_vector_along_heading() {
    let r = force_vector(20_000_000, Vec2 { x: MICRO, y: 0 });
    assert_eq!(r.x, 20_000_000);
    assert_eq!(r.y, 0);
    let r = force_vector(-10_000_000, Vec2 { x: 0, y: MICRO });
    assert_eq!(r.x, 0);
    assert_eq!(r.y, -10_000_000);
}

// --- sensing through the world ---

#[test]
fn sense_event_fills_buffer_and_inputs_reduce_it() {
    let mut w = World::new();
    w.spawn_agent(Vec2 { x: 0, y: 0 }, Vec2 { x: MICRO, y: 0 }, 0);
    w.spawn_agent(Vec2 { x: 32_000_000, y: 0 }, Vec2 { x: MICRO, y: 0 }, 0);
    w.set_motion(0, Vec2 { x: 0, y: 0 }, Vec2 { x: MICRO, y: 0 }, 7, -3);
    w.sense_agent_event(0, 1);
    let inputs = w.tick_inputs(0).expect("live agent yields inputs");
    assert_eq!(inputs.len(), 8);
    assert_eq!(inputs[0], 7); // speed
    assert_eq!(inputs[1], -3); // angular velocity
    assert_eq!(inputs[2], HEALTH_CAP); // health
    assert_eq!(inputs[3], 1_000_000); // hunger
    assert_eq!(inputs[4], -500_000); // nearest-agent angle: dead ahead
    assert_eq!(inputs[5], MICRO); // 1 / 1.0 distance, micro-scaled
    assert_eq!(inputs[6], 0); // no food seen: sentinel angle
    assert_eq!(inputs[7], 0); // 1 / infinity degrades to zero
    // Buffers are tick-scoped: a second reduction sees them empty.
    let inputs2 = w.tick_inputs(0).expect("agent still alive");
    assert_eq!(inputs2[4], 0);
    assert_eq!(inputs2[5], 0);
}

#[test]
fn sense_event_is_one_directional() {
    let mut w = World::new();
    w.spawn_agent(Vec2 { x: 0, y: 0 }, Vec2 { x: MICRO, y: 0 }, 0);
    w.spawn_agent(Vec2 { x: 32_000_000, y: 0 }, Vec2 { x: MICRO, y: 0 }, 0);
    w.sense_agent_event(0, 1);
    agent_field(&w, 0, |a| assert_eq!(a.brain.sight_minions.len(), 1));
    agent_field(&w, 1, |a| assert_eq!(a.brain.sight_minions.len(), 0));
}

#[test]
fn sense_event_skips_self_overlap() {
    let mut w = one_agent_world();
    w.sense_agent_event(0, 0);
    agent_field(&w, 0, |a| assert_eq!(a.brain.sight_minions.len(), 0));
}

#[test]
fn sense_event_skips_missing_entity() {
    let mut w = one_agent_world();
    w.sense_agent_event(0, 7); // no such slot: skipped, no fault
    w.sense_food_event(0, 0); // no food yet: skipped
    agent_field(&w, 0, |a| {
        assert_eq!(a.brain.sight_minions.len(), 0);
        assert_eq!(a.brain.sight_food.len(), 0);
    });
}

// --- neural decision plumbing ---

#[test]
fn actuation_scales_and_clamps_outputs() {
    let mut w = one_agent_world();
    w.apply_actuation(0, &vec![2_000_000, -2_000_000]);
    agent_field(&w, 0, |a| {
        assert_eq!(a.force, 20_000_000); // 2.0 * 20 clamped to 20
        assert_eq!(a.torque, -10_000); // -2.0 / 100 clamped to -0.01
    });
    w.apply_actuation(0, &vec![250_000, 500_000]);
    agent_field(&w, 0, |a| {
        assert_eq!(a.force, 5_000_000); // 0.25 * 20 = 5.0
        assert_eq!(a.torque, 5_000); // 0.5 / 100 = 0.005
    });
}

#[test]
fn controller_fault_yields_zero_actuation() {
    let mut w = one_agent_world();
    w.apply_actuation(0, &vec![250_000, 500_000]);
    // A wrong-length output vector is a controller fault: zero actuation.
    w.apply_actuation(0, &vec![1, 2, 3]);
    agent_field(&w, 0, |a| {
        assert_eq!(a.force, 0);
        assert_eq!(a.torque, 0);
    });
}

// --- homeostasis ---

#[test]
fn homeostasis_drains_hunger_first() {
    let mut w = one_agent_world();
    w.apply_actuation(0, &vec![MICRO, MICRO]); // force 20.0, torque 0.01
    w.update_hunger(100_000); // dt = 0.1 s
    // cost = 20/40 + 0.01*50 = 1.0; drain = 0.1*0.02*1.0 + 0.1/20 = 0.007
    agent_field(&w, 0, |a| {
        assert_eq!(a.hunger.filled, 993_000);
        assert_eq!(a.health.health, HEALTH_CAP);
    });
}

#[test]
fn homeostasis_starving_drains_health() {
    let mut w = one_agent_world();
    w.agents[0].as_mut().unwrap().hunger.filled = 0;
    w.update_hunger(100_000);
    agent_field(&w, 0, |a| {
        assert_eq!(a.hunger.filled, 0);
        assert_eq!(a.health.health, HEALTH_CAP - 5_000); // baseline dt/20 only
    });
}

#[test]
fn homeostasis_overflow_transfer_conserves_total() {
    let mut w = one_agent_world();
    w.agents[0].as_mut().unwrap().hunger.filled = 2_150_000;
    w.update_hunger(100_000); // idle: drain = dt/20 = 5_000
    // After drain: filled 2_145_000 > cap: 45_000 spills into health,
    // health 1_045_000 > cap: 45_000 spills back; totals conserved.
    agent_field(&w, 0, |a| {
        assert_eq!(a.health.health, HEALTH_CAP);
        assert_eq!(a.hunger.filled, 2_145_000);
        assert_eq!(a.health.health + a.hunger.filled, 2_150_000 + HEALTH_CAP - 5_000);
    });
}

#[test]
fn homeostasis_caps_hold_over_many_ticks() {
    let mut w = one_agent_world();
    w.apply_actuation(0, &vec![MICRO, MICRO]);
    let mut prev_total = HEALTH_CAP + 1_000_000;
    for _ in 0..50 {
        w.update_hunger(100_000);
        let a = w.agents[0].as_ref().unwrap();
        assert!(a.hunger.filled <= HUNGER_CAP);
        assert!(a.health.health <= HEALTH_CAP);
        let total = a.health.health + a.hunger.filled;
        assert!(total <= prev_total);
        prev_total = total;
    }
}

// --- combat and feeding ---

#[test]
fn combat_transfers_energy_exactly() {
    let mut w = World::new();
    w.spawn_agent(Vec2 { x: 0, y: 0 }, Vec2 { x: MICRO, y: 0 }, 0);
    w.spawn_agent(Vec2 { x: 20_000_000, y: 0 }, Vec2 { x: MICRO, y: 0 }, 0);
    // weapon damage 0.2, dt 1 s, protection 1: dmg = 0.2
    w.resolve_attack(0, 1, MICRO);
    agent_field(&w, 1, |v| assert_eq!(v.health.health, HEALTH_CAP - 200_000));
    agent_field(&w, 0, |a| {
        assert_eq!(a.hunger.filled, 1_000_000 + 66_666); // dmg / 3
        assert_eq!(a.health.health, HEALTH_CAP + 100_000); // dmg / 2
    });
}

#[test]
fn combat_scales_with_victim_protection() {
    let mut w = World::new();
    w.spawn_agent(Vec2 { x: 0, y: 0 }, Vec2 { x: MICRO, y: 0 }, 0);
    w.spawn_agent(Vec2 { x: 20_000_000, y: 0 }, Vec2 { x: MICRO, y: 0 }, 0);
    w.agents[1].as_mut().unwrap().health.protection = 500_000; // 0.5
    w.resolve_attack(0, 1, MICRO);
    agent_field(&w, 1, |v| assert_eq!(v.health.health, HEALTH_CAP - 100_000));
}

#[test]
fn combat_skips_self_and_missing() {
    let mut w = one_agent_world();
    w.resolve_attack(0, 0, MICRO); // weapon against its own parent: skipped
    w.resolve_attack(0, 5, MICRO); // victim already gone: skipped
    agent_field(&w, 0, |a| {
        assert_eq!(a.health.health, HEALTH_CAP);
        assert_eq!(a.hunger.filled, 1_000_000);
    });
}

#[test]
fn feeding_transfers_energy_exactly() {
    let mut w = one_agent_world();
    w.elapsed = 0;
    assert!(w.schedule_food());
    w.resolve_feed(0, 0, MICRO);
    // dmg = 0.2; food loses it, attacker hunger gains 1.5 * dmg.
    assert_eq!(w.foods[0].as_ref().unwrap().health.health, FOOD_HEALTH - 200_000);
    agent_field(&w, 0, |a| {
        assert_eq!(a.hunger.filled, 1_000_000 + 300_000);
        assert_eq!(a.health.health, HEALTH_CAP); // feeding heals nothing
    });
}

// --- reproduction ---

#[test]
fn reproduction_at_threshold_happens_exactly_once() {
    let mut w = one_agent_world();
    w.agents[0].as_mut().unwrap().hunger.filled = 1_600_000;
    let parents = w.reproduce_tick();
    assert_eq!(parents, vec![0]);
    assert_eq!(w.agents.len(), 2);
    agent_field(&w, 0, |a| assert_eq!(a.hunger.filled, 1_100_000));
    agent_field(&w, 1, |c| {
        assert_eq!(c.brain.generation, 3); // three mutation passes past 0
        assert_eq!(c.pos.x, 500_000_000); // 500 units ahead of the parent
        assert_eq!(c.pos.y, 0);
        assert_eq!(c.hunger.filled, 1_000_000);
    });
    // 1.1 is below the threshold: no further reproduction.
    let parents2 = w.reproduce_tick();
    assert!(parents2.is_empty());
    assert_eq!(w.agents.len(), 2);
}

#[test]
fn reproduction_not_at_exact_threshold() {
    let mut w = one_agent_world();
    w.agents[0].as_mut().unwrap().hunger.filled = 1_500_000; // not strictly above
    let parents = w.reproduce_tick();
    assert!(parents.is_empty());
}

#[test]
fn offspring_generation_compounds() {
    let mut w = World::new();
    w.spawn_agent(Vec2 { x: 0, y: 0 }, Vec2 { x: MICRO, y: 0 }, 9);
    w.agents[0].as_mut().unwrap().hunger.filled = 2_000_000;
    w.reproduce_tick();
    agent_field(&w, 1, |c| assert_eq!(c.brain.generation, 12));
}

// --- population scheduling ---

#[test]
fn food_target_step_function() {
    assert_eq!(food_target_exec(0), 512);
    assert_eq!(food_target_exec(179_999_999), 512);
    assert_eq!(food_target_exec(180_000_000), 192);
    assert_eq!(food_target_exec(200_000_000), 192);
    assert_eq!(food_target_exec(360_000_000), 64);
}

#[test]
fn scheduler_spawns_one_per_tick_until_target() {
    let mut w = World::new();
    for i in 0..512 {
        assert_eq!(w.food_count(), i);
        assert!(w.schedule_food());
    }
    assert_eq!(w.food_count(), 512);
    assert!(!w.schedule_food());
    assert_eq!(w.food_count(), 512);
}

#[test]
fn scheduler_stops_at_lower_later_target() {
    let mut w = World::new();
    w.elapsed = 200_000_000; // target 192 now
    for _ in 0..300 {
        w.foods.push(Some(minion_sim::agent::Food {
            health: minion_sim::agent::Health { health: FOOD_HEALTH, protection: MICRO },
            size: minion_sim::agent::Size { radius: FOOD_RADIUS },
            pos: Vec2 { x: 0, y: 0 },
        }));
    }
    // 300 on the ground is below the earlier 512 target but above 192.
    assert!(!w.schedule_food());
    assert_eq!(w.food_count(), 300);
}

#[test]
fn spawned_food_is_inside_the_spawn_square() {
    let mut w = World::new();
    assert!(w.schedule_food());
    let f = w.foods[0].as_ref().unwrap();
    assert_eq!(f.health.health, FOOD_HEALTH);
    assert_eq!(f.health.protection, MICRO);
    assert_eq!(f.size.radius, FOOD_RADIUS);
    assert!(f.pos.x.abs() <= 2_000_000_000 && f.pos.y.abs() <= 2_000_000_000);
}

// --- lifecycle ---

#[test]
fn boundary_wrap_teleports_to_opposite_side() {
    let mut w = World::new();
    w.spawn_agent(Vec2 { x: 0, y: 0 }, Vec2 { x: 0, y: MICRO }, 0);
    w.set_motion(0, Vec2 { x: 7_001_000_000, y: -7_002_000_000 }, Vec2 { x: 0, y: MICRO }, 42, 7);
    w.wrap_positions();
    agent_field(&w, 0, |a| {
        assert_eq!(a.pos.x, -7_000_000_000);
        assert_eq!(a.pos.y, 7_000_000_000);
        // velocity and heading unchanged by the teleport
        assert_eq!(a.heading, Vec2 { x: 0, y: MICRO });
        assert_eq!(a.speed, 42);
        assert_eq!(a.angvel, 7);
    });
}

#[test]
fn wrap_exact_boundary_stays() {
    assert_eq!(wrap_coord_exec(7_000_000_000), 7_000_000_000);
    assert_eq!(wrap_coord_exec(7_000_000_001), -7_000_000_000);
    assert_eq!(wrap_coord_exec(-7_000_000_001), 7_000_000_000);
    assert_eq!(wrap_coord_exec(123), 123);
}

#[test]
fn depleted_entities_are_removed() {
    let mut w = World::new();
    w.spawn_agent(Vec2 { x: 0, y: 0 }, Vec2 { x: MICRO, y: 0 }, 0);
    w.spawn_agent(Vec2 { x: 1, y: 0 }, Vec2 { x: MICRO, y: 0 }, 0);
    w.agents[0].as_mut().unwrap().health.health = 0;
    assert!(w.schedule_food());
    w.foods[0].as_mut().unwrap().health.health = -5;
    w.remove_depleted();
    // The whole agent record vanishes, its detector and weapon zones with it.
    assert!(w.agents[0].is_none());
    assert!(w.agents[1].is_some());
    assert!(w.foods[0].is_none());
    assert_eq!(w.agent_count(), 1);
    assert_eq!(w.food_count(), 0);
}

#[test]
fn stale_references_after_removal_are_skipped() {
    let mut w = World::new();
    w.spawn_agent(Vec2 { x: 0, y: 0 }, Vec2 { x: MICRO, y: 0 }, 0);
    w.spawn_agent(Vec2 { x: 1, y: 0 }, Vec2 { x: MICRO, y: 0 }, 0);
    w.agents[1].as_mut().unwrap().health.health = 0;
    w.remove_depleted();
    // Events collected before the removal still reference slot 1: skipped.
    w.resolve_attack(0, 1, MICRO);
    w.sense_agent_event(0, 1);
    agent_field(&w, 0, |a| {
        assert_eq!(a.health.health, HEALTH_CAP);
        assert_eq!(a.brain.sight_minions.len(), 0);
    });
}

#[test]
fn aging_is_monotonic_and_lifespan_is_advisory() {
    let mut w = one_agent_world();
    for _ in 0..10 {
        w.age_tick(1_000_000);
    }
    agent_field(&w, 0, |a| {
        assert_eq!(a.age.age, 10_000_000);
        assert_eq!(a.age.lifespan, 720_000_000);
    });
    // Age alone never removes an agent.
    w.agents[0].as_mut().unwrap().age.age = 999_000_000;
    w.remove_depleted();
    assert!(w.agents[0].is_some());
}

// --- init, selection, inspection ---

#[test]
fn init_population_spawns_in_square_with_mutated_controllers() {
    let mut w = World::new();
    w.init_population(50);
    assert_eq!(w.agent_count(), 50);
    for slot in w.agents.iter() {
        let a = slot.as_ref().unwrap();
        assert_eq!(a.brain.generation, 3);
        assert!(a.pos.x.abs() <= 2_000_000_000 && a.pos.y.abs() <= 2_000_000_000);
        assert_eq!(a.health.health, HEALTH_CAP);
    }
}

#[test]
fn best_agent_is_last_oldest() {
    let mut w = World::new();
    w.spawn_agent(Vec2 { x: 0, y: 0 }, Vec2 { x: MICRO, y: 0 }, 0);
    w.spawn_agent(Vec2 { x: 1, y: 0 }, Vec2 { x: MICRO, y: 0 }, 0);
    w.spawn_agent(Vec2 { x: 2, y: 0 }, Vec2 { x: MICRO, y: 0 }, 0);
    w.agents[0].as_mut().unwrap().age.age = 5;
    w.agents[1].as_mut().unwrap().age.age = 10;
    w.agents[2].as_mut().unwrap().age.age = 10;
    assert_eq!(w.best_agent(), Some(2));
    assert_eq!(World::new().best_agent(), None);
}

// --- population log ---

#[test]
fn poplog_appends_with_running_index() {
    let mut log = PopulationLog::new();
    log.push_sample(420);
    log.push_sample(410);
    assert_eq!(log.samples, vec![(0, 0), (1, 420), (2, 410)]);
}

#[test]
fn poplog_decimates_when_full() {
    let mut log = PopulationLog::new();
    for i in 0..200 {
        log.push_sample(1000 + i);
    }
    // 201 samples overflow the capacity of 200: odd positions survive.
    assert_eq!(log.samples.len(), 100);
    assert_eq!(log.samples[0], (1, 1000));
    assert_eq!(log.samples[1], (3, 1002));
    assert_eq!(log.samples[99], (199, 1198));
}

#[test]
fn manual_actuation_maps_keys_to_forces() {
    let mut w = one_agent_world();
    w.manual_actuation(0, true, false, true, false);
    agent_field(&w, 0, |a| {
        assert_eq!(a.force, 20_000_000);
        assert_eq!(a.torque, 2_000);
    });
    // Conflicting keys: the later mapping wins, as in the input handler.
    w.manual_actuation(0, true, true, true, true);
    agent_field(&w, 0, |a| {
        assert_eq!(a.force, -20_000_000);
        assert_eq!(a.torque, -2_000);
    });
    w.manual_actuation(0, false, false, false, false);
    agent_field(&w, 0, |a| {
        assert_eq!(a.force, 0);
        assert_eq!(a.torque, 0);
    });
}

#[test]
fn two_combat_events_on_shared_victim_compose_exactly() {
    let mut w = World::new();
    w.spawn_agent(Vec2 { x: 0, y: 0 }, Vec2 { x: MICRO, y: 0 }, 0);
    w.spawn_agent(Vec2 { x: 1, y: 0 }, Vec2 { x: MICRO, y: 0 }, 0);
    w.spawn_agent(Vec2 { x: 2, y: 0 }, Vec2 { x: MICRO, y: 0 }, 0);
    // Two attackers hit the same victim in one tick; processed sequentially,
    // each transfers its exact amount independently of the other.
    w.resolve_attack(0, 2, MICRO);
    w.resolve_attack(1, 2, MICRO);
    agent_field(&w, 2, |v| assert_eq!(v.health.health, HEALTH_CAP - 400_000));
    agent_field(&w, 0, |a| assert_eq!(a.hunger.filled, 1_066_666));
    agent_field(&w, 1, |a| assert_eq!(a.hunger.filled, 1_066_666));
}

#[test]
fn food_sighting_feeds_the_food_inputs() {
    let mut w = one_agent_world();
    assert!(w.schedule_food());
    let fpos = w.foods[0].as_ref().unwrap().pos;
    // Move the agent 64 units left of the food so the sighting is exact.
    w.set_motion(
        0,
        Vec2 { x: fpos.x - 64_000_000, y: fpos.y },
        Vec2 { x: MICRO, y: 0 },
        0,
        0,
    );
    w.sense_food_event(0, 0);
    let inputs = w.tick_inputs(0).expect("live agent yields inputs");
    assert_eq!(inputs[6], -500_000); // food dead ahead
    assert_eq!(inputs[7], 500_000); // distance 2.0: reciprocal 0.5
    assert_eq!(inputs[4], 0); // no agent seen
    assert_eq!(inputs[5], 0);
}
