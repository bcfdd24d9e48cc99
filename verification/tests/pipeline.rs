use simbench::entity::{
    Armor, AttackKit, Cooldown, Damage, Entity, Health, Lifetime, Status, Target, Team,
    Transform2D, Velocity, find_entity,
};
use simbench::stages::{
    ai_behavior_system, boundary_system, combat_system, cooldown_system, damage_dealt,
    death_system, health_regen_system, lifetime_system, movement_system, rotation_system,
    status_effect_system, step, velocity_damping_system,
};

fn plain(id: u32, x: i64, y: i64, vx: i64, vy: i64) -> Entity {
    Entity {
        id,
        transform: Transform2D { x, y, rotation: 0 },
        velocity: Velocity { vx, vy },
        health: Health { current: 100, max: 100 },
        armor: None,
        attack: None,
        team: Team { id: 0 },
        status: None,
        lifetime: None,
    }
}

#[test]
fn movement_adds_velocity_times_dt() {
    // 2.5 units/s for 16 ms moves 0.04 units: 40 milli-units
    let mut pop = vec![plain(0, 500_000, 500_000, 2500, -2500)];
    movement_system(&mut pop, 16);
    assert_eq!(pop[0].transform.x, 500_040);
    assert_eq!(pop[0].transform.y, 499_960);
}

#[test]
fn boundary_wraps_past_either_edge_to_the_opposite_one() {
    // x = 1000.01 wraps to 0; x = -0.01 wraps to 1000
    let mut pop = vec![
        plain(0, 1_000_010, 500_000, 0, 0),
        plain(1, -10, 500_000, 0, 0),
        plain(2, 500_000, 500_000, 0, 0),
    ];
    boundary_system(&mut pop);
    assert_eq!(pop[0].transform.x, 0);
    assert_eq!(pop[1].transform.x, 1_000_000);
    assert_eq!(pop[2].transform.x, 500_000);
}

#[test]
fn movement_step_past_the_edge_wraps() {
    // starts just inside the edge, one movement step pushes it past 1000
    let mut pop = vec![plain(0, 999_994, 6, 1000, -1000)];
    movement_system(&mut pop, 16);
    assert_eq!(pop[0].transform.x, 1_000_010);
    assert_eq!(pop[0].transform.y, -10);
    boundary_system(&mut pop);
    assert_eq!(pop[0].transform.x, 0);
    assert_eq!(pop[0].transform.y, 1_000_000);
}

#[test]
fn rotation_faces_the_velocity_and_skips_entities_at_rest() {
    let mut pop = vec![
        plain(0, 0, 0, 1000, 0),
        plain(1, 0, 0, 0, 1000),
        plain(2, 0, 0, -1000, 0),
        plain(3, 0, 0, 0, -1000),
        plain(4, 0, 0, 1000, 1000),
        plain(5, 0, 0, -1000, 1000),
        plain(6, 0, 0, 0, 0),
    ];
    pop[6].transform.rotation = 4321;
    rotation_system(&mut pop);
    assert_eq!(pop[0].transform.rotation, 0); // east
    assert_eq!(pop[1].transform.rotation, 1571); // north, pi/2 milliradians
    assert_eq!(pop[2].transform.rotation, 3142); // west, pi
    assert_eq!(pop[3].transform.rotation, 4713); // south, 3*pi/2
    assert_eq!(pop[4].transform.rotation, 785); // north-east, pi/4
    assert_eq!(pop[5].transform.rotation, 2356); // north-west, 3*pi/4
    assert_eq!(pop[6].transform.rotation, 4321); // at rest: kept
}

#[test]
fn health_regen_heals_five_capped_and_only_on_gated_frames() {
    let mut pop = vec![plain(0, 0, 0, 0, 0), plain(1, 0, 0, 0, 0), plain(2, 0, 0, 0, 0)];
    pop[0].health.current = 90;
    pop[1].health.current = 97;
    pop[2].health.current = 0;
    health_regen_system(&mut pop, 1); // 1 % 30 != 0: untouched
    assert_eq!(pop[0].health.current, 90);
    health_regen_system(&mut pop, 30);
    assert_eq!(pop[0].health.current, 95);
    assert_eq!(pop[1].health.current, 100); // capped at max
    assert_eq!(pop[2].health.current, 0); // the dead do not heal
}

#[test]
fn cooldown_decays_by_dt_and_clamps_at_zero() {
    let kit = AttackKit {
        damage: Damage { amount: 10 },
        cooldown: Cooldown { current: 1000, max: 1000 },
        target: Target { entity_id: 0 },
    };
    let mut e = plain(0, 0, 0, 0, 0);
    e.attack = Some(kit);
    let mut f = plain(1, 0, 0, 0, 0);
    f.attack = Some(AttackKit { cooldown: Cooldown { current: 10, max: 1000 }, ..kit });
    let mut pop = vec![e, f];
    cooldown_system(&mut pop, 16);
    assert_eq!(pop[0].attack.unwrap().cooldown.current, 984);
    assert_eq!(pop[1].attack.unwrap().cooldown.current, 0);
}

#[test]
fn damage_reduction_p4_values() {
    // damage 10 against armor 50: max(1, 10 - 5) = 5
    assert_eq!(damage_dealt(10, Some(Armor { value: 50 })), 5);
    // the floor-at-1 rule triggers exactly when amount - armor/10 < 1
    assert_eq!(damage_dealt(10, Some(Armor { value: 91 })), 1); // 10 - 9.1 < 1
    assert_eq!(damage_dealt(10, Some(Armor { value: 90 })), 1); // 10 - 9.0 == 1
    assert_eq!(damage_dealt(10, Some(Armor { value: 89 })), 1); // trunc(1.1)
    assert_eq!(damage_dealt(10, Some(Armor { value: 80 })), 2);
    assert_eq!(damage_dealt(10, None), 10); // unarmored: the raw amount
}

#[test]
fn combat_hits_live_target_and_resets_ready_cooldowns() {
    let mut attacker = plain(0, 0, 0, 0, 0);
    attacker.attack = Some(AttackKit {
        damage: Damage { amount: 10 },
        cooldown: Cooldown { current: 0, max: 1000 },
        target: Target { entity_id: 1 },
    });
    let mut target = plain(1, 0, 0, 0, 0);
    target.armor = Some(Armor { value: 50 });
    let mut pop = vec![attacker, target];
    combat_system(&mut pop, 5); // 5 % 5 == 0: combat runs
    assert_eq!(pop[1].health.current, 95);
    assert_eq!(pop[0].attack.unwrap().cooldown.current, 1000);
}

#[test]
fn combat_skips_off_frames_cooling_attackers_and_dangling_targets() {
    let mut attacker = plain(0, 0, 0, 0, 0);
    attacker.attack = Some(AttackKit {
        damage: Damage { amount: 10 },
        cooldown: Cooldown { current: 0, max: 1000 },
        target: Target { entity_id: 7 }, // dangles: tolerated, no hit
    });
    let mut cooling = plain(1, 0, 0, 0, 0);
    cooling.attack = Some(AttackKit {
        damage: Damage { amount: 10 },
        cooldown: Cooldown { current: 100, max: 1000 },
        target: Target { entity_id: 0 },
    });
    let mut pop = vec![attacker, cooling];
    combat_system(&mut pop, 3); // off frame: nothing happens at all
    assert_eq!(pop[0].attack.unwrap().cooldown.current, 0);
    combat_system(&mut pop, 10);
    assert_eq!(pop[0].health.current, 100); // cooling attacker did not fire
    assert_eq!(pop[1].health.current, 100); // dangling target was a no-op
    assert_eq!(pop[0].attack.unwrap().cooldown.current, 1000); // still reset
    assert_eq!(pop[1].attack.unwrap().cooldown.current, 100); // not ready: kept
}

#[test]
fn combat_health_floors_at_zero() {
    let mut attacker = plain(0, 0, 0, 0, 0);
    attacker.attack = Some(AttackKit {
        damage: Damage { amount: 500 },
        cooldown: Cooldown { current: 0, max: 1000 },
        target: Target { entity_id: 1 },
    });
    let target = plain(1, 0, 0, 0, 0);
    let mut pop = vec![attacker, target];
    combat_system(&mut pop, 0);
    assert_eq!(pop[1].health.current, 0);
}

#[test]
fn death_removes_exactly_the_entities_at_zero_health() {
    let mut a = plain(0, 0, 0, 0, 0);
    a.health.current = 0;
    let b = plain(1, 0, 0, 0, 0);
    let mut c = plain(2, 0, 0, 0, 0);
    c.health.current = 0;
    let mut pop = vec![a, b, c];
    death_system(&mut pop);
    assert_eq!(pop.len(), 1);
    assert_eq!(pop[0].id, 1);
}

#[test]
fn status_stun_zeroes_velocity_and_overrides_slow() {
    let mut stunned = plain(0, 0, 0, 3000, -3000);
    stunned.status = Some(Status { stunned: 1, slowed: 1 });
    let mut slowed = plain(1, 0, 0, 3001, -3001);
    slowed.status = Some(Status { stunned: 0, slowed: 1 });
    let free = plain(2, 0, 0, 3000, 3000);
    let mut pop = vec![stunned, slowed, free];
    status_effect_system(&mut pop);
    assert_eq!((pop[0].velocity.vx, pop[0].velocity.vy), (0, 0));
    assert_eq!((pop[1].velocity.vx, pop[1].velocity.vy), (1500, -1500));
    assert_eq!((pop[2].velocity.vx, pop[2].velocity.vy), (3000, 3000));
}

#[test]
fn lifetime_decrements_and_expires() {
    let mut stays = plain(0, 0, 0, 0, 0);
    stays.lifetime = Some(Lifetime { remaining: 2000 });
    let mut expires = plain(1, 0, 0, 0, 0);
    expires.lifetime = Some(Lifetime { remaining: 10 });
    let unbudgeted = plain(2, 0, 0, 0, 0);
    let mut pop = vec![stays, expires, unbudgeted];
    lifetime_system(&mut pop, 16);
    assert_eq!(pop.len(), 2);
    assert_eq!(pop[0].id, 0);
    assert_eq!(pop[0].lifetime.unwrap().remaining, 1984);
    assert_eq!(pop[1].id, 2);
}

#[test]
fn damping_shaves_one_percent_toward_zero() {
    let mut pop = vec![plain(0, 0, 0, 1000, -1000), plain(1, 0, 0, 99, -99)];
    velocity_damping_system(&mut pop);
    assert_eq!((pop[0].velocity.vx, pop[0].velocity.vy), (990, -990));
    assert_eq!((pop[1].velocity.vx, pop[1].velocity.vy), (98, -98));
}

#[test]
fn jitter_runs_only_on_gated_frames_and_is_reproducible() {
    let mut pop: Vec<Entity> = (0..5).map(|i| plain(i, 0, 0, 100, 100)).collect();
    ai_behavior_system(&mut pop, 7); // 7 % 20 != 0: untouched
    for e in pop.iter() {
        assert_eq!((e.velocity.vx, e.velocity.vy), (100, 100));
    }
    // frame 20 seeds a local generator with 20: the fifth entity draws the
    // jitter gate and is nudged by exactly (239, 481)
    ai_behavior_system(&mut pop, 20);
    for e in pop.iter().take(4) {
        assert_eq!((e.velocity.vx, e.velocity.vy), (100, 100));
    }
    assert_eq!((pop[4].velocity.vx, pop[4].velocity.vy), (339, 581));
}

#[test]
fn find_entity_tolerates_dangling_handles() {
    let pop = vec![plain(3, 0, 0, 0, 0), plain(8, 0, 0, 0, 0)];
    assert_eq!(find_entity(&pop, 8), Some(1));
    assert_eq!(find_entity(&pop, 4), None);
}

#[test]
fn step_keeps_the_health_invariant() {
    let mut pop = simbench::gen::generate(300, 12345);
    for frame in 0..60u32 {
        step(&mut pop, frame, 16);
        for e in pop.iter() {
            assert!(e.health.current <= e.health.max);
        }
    }
}
