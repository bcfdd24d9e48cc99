use simbench::gen::generate;
use simbench::rng::SimpleRng;

#[test]
fn rng_pinned_raw_sequence_seed_12345() {
    let mut rng = SimpleRng::new(12345);
    let expected = [21468, 9988, 22117, 3498, 16927, 16045, 19741, 12122, 8410, 12261];
    for &e in expected.iter() {
        assert_eq!(rng.next_raw(), e);
    }
}

#[test]
fn rng_pinned_u16_sequence_seed_12345() {
    let mut rng = SimpleRng::new(12345);
    let expected = [42935, 19975, 44233, 6995, 33853, 32089];
    for &e in expected.iter() {
        assert_eq!(rng.next_u16(), e);
    }
}

#[test]
fn rng_pinned_u8_sequence_seed_12345() {
    let mut rng = SimpleRng::new(12345);
    let expected = [167, 77, 172, 27, 131, 124];
    for &e in expected.iter() {
        assert_eq!(rng.next_u8(), e);
    }
}

#[test]
fn rng_same_seed_same_stream() {
    let mut a = SimpleRng::new(777);
    let mut b = SimpleRng::new(777);
    for _ in 0..100 {
        assert_eq!(a.next_raw(), b.next_raw());
    }
}

#[test]
fn rng_raw_stays_in_15_bits() {
    let mut rng = SimpleRng::new(424242);
    for _ in 0..1000 {
        assert!(rng.next_raw() < 32768);
    }
}

#[test]
fn generate_is_reproducible() {
    let a = generate(200, 12345);
    let b = generate(200, 12345);
    assert_eq!(a.len(), 200);
    assert_eq!(b.len(), 200);
    for (x, y) in a.iter().zip(b.iter()) {
        assert_eq!(x.id, y.id);
        assert_eq!(x.transform.x, y.transform.x);
        assert_eq!(x.transform.y, y.transform.y);
        assert_eq!(x.transform.rotation, y.transform.rotation);
        assert_eq!(x.velocity.vx, y.velocity.vx);
        assert_eq!(x.velocity.vy, y.velocity.vy);
        assert_eq!(x.health.current, y.health.current);
        assert_eq!(x.health.max, y.health.max);
        assert_eq!(x.armor.map(|a| a.value), y.armor.map(|a| a.value));
        assert_eq!(x.team.id, y.team.id);
        assert_eq!(x.attack.is_some(), y.attack.is_some());
        assert_eq!(x.status.is_some(), y.status.is_some());
        assert_eq!(
            x.lifetime.map(|l| l.remaining),
            y.lifetime.map(|l| l.remaining)
        );
    }
}

#[test]
fn generate_pinned_first_entity_seed_12345() {
    let pop = generate(3, 12345);
    let e = &pop[0];
    assert_eq!(e.id, 0);
    assert_eq!(e.transform.x, 655151);
    assert_eq!(e.transform.y, 304809);
    assert_eq!(e.transform.rotation, 4240);
    assert_eq!(e.velocity.vx, -3933);
    assert_eq!(e.velocity.vy, 165);
    assert_eq!(e.health.current, 100);
    assert_eq!(e.health.max, 100);
    assert_eq!(e.armor.map(|a| a.value), Some(30));
    assert!(e.attack.is_none());
    assert_eq!(e.team.id, 1);
    assert!(e.status.is_none());
    assert!(e.lifetime.is_none());
}

#[test]
fn generate_second_entity_attack_kit_seed_12345() {
    let pop = generate(3, 12345);
    let e = &pop[1];
    let kit = e.attack.expect("second entity draws an attack kit");
    assert_eq!(kit.target.entity_id, 1);
    assert_eq!(kit.damage.amount, 14);
    assert_eq!(kit.cooldown.current, 0);
    assert_eq!(kit.cooldown.max, 1000);
    assert_eq!(e.lifetime.map(|l| l.remaining), Some(1645));
}

#[test]
fn generate_attribute_shares_near_probabilities() {
    let pop = generate(1000, 12345);
    let armor = pop.iter().filter(|e| e.armor.is_some()).count();
    let attack = pop.iter().filter(|e| e.attack.is_some()).count();
    let status = pop.iter().filter(|e| e.status.is_some()).count();
    let lifetime = pop.iter().filter(|e| e.lifetime.is_some()).count();
    // probabilities 0.8, 0.6, 0.2, 0.15 over 1000 draws, generous tolerance
    assert!((750..=850).contains(&armor), "armor count {armor}");
    assert!((550..=650).contains(&attack), "attack count {attack}");
    assert!((150..=250).contains(&status), "status count {status}");
    assert!((100..=200).contains(&lifetime), "lifetime count {lifetime}");
    for e in pop.iter() {
        assert!(e.team.id <= 3);
        assert!(e.health.current <= e.health.max);
        assert!((0..=1_000_000).contains(&e.transform.x));
        assert!((0..=1_000_000).contains(&e.transform.y));
        assert!((-5000..5000).contains(&e.velocity.vx));
        assert!((-5000..5000).contains(&e.velocity.vy));
    }
}

#[test]
fn generate_ids_are_the_spawn_order() {
    let pop = generate(50, 99);
    for (i, e) in pop.iter().enumerate() {
        assert_eq!(e.id, i as u32);
    }
}
