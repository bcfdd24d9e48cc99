//! Reproducible population generation.
//!
//! For each of the `n` entities the generator draws, in a fixed order:
//! position (scaled to the world box), heading, velocity (scaled to
//! `[-5, 5)` units per second), fixed 100/100 health; then a gate draw per
//! optional attribute — armor (probability 0.8), an attack kit (probability
//! 0.6, whose target handle `floor(draw * n)` may dangle or point at the
//! entity itself), a team (always), status flags (probability 0.2, each flag
//! then set with probability 0.5), and a lifetime budget (probability 0.15,
//! up to five seconds). Every gate and payload consumes exactly one raw draw,
//! so the population is a pure function of the seed and the count.
//!
//! A gate with probability `p` passes when the raw 15-bit draw `r` satisfies
//! `r / 32768 > 1 - p`; the thresholds below are the smallest passing `r`.

use crate::entity::{Armor, AttackKit, Cooldown, Damage, Entity, Health, Lifetime, Status, Target, Team, Transform2D, Velocity, pop_wf, entity_ok, pos_strict, WORLD_MAX};
use crate::rng::{SimpleRng, lcg_step, raw_of};
use vstd::prelude::*;

verus! {

/// Smallest raw draw that attaches armor (`r/32768 > 0.2`).
pub const GATE_ARMOR: u16 = 6554;

/// Smallest raw draw that attaches an attack kit (`r/32768 > 0.4`).
pub const GATE_ATTACK: u16 = 13108;

/// Smallest raw draw that attaches status flags (`r/32768 > 0.8`).
pub const GATE_STATUS: u16 = 26215;

/// Smallest raw draw that attaches a lifetime budget (`r/32768 > 0.85`).
pub const GATE_LIFETIME: u16 = 27853;

/// Smallest raw draw that sets an individual status flag (`r/32768 > 0.5`).
pub const GATE_FLAG: u16 = 16385;

/// Cooldown assigned to every fresh attack kit: one second, ready at once.
pub const START_COOLDOWN_MAX: u32 = 1000;

/// A raw draw scaled to a coordinate in `[0, 1000]` world units, held in
/// milli-units: `floor(r * 1_000_000 / 32768)`.
pub open spec fn scale_pos(r: u16) -> i64 {
    ((r * 15625) / 512) as i64
}

/// A raw draw scaled to a velocity component in `[-5, 5)` units per second,
/// held in milli-units: `floor(r * 10_000 / 32768) - 5000`.
pub open spec fn scale_vel(r: u16) -> i64 {
    ((r * 625) / 2048 - 5000) as i64
}

/// A raw draw scaled to a heading in `[0, 2*pi)`, held in milliradians.
pub open spec fn scale_rot(r: u16) -> i64 {
    ((r * 6283) / 32768) as i64
}

/// A raw draw scaled to an armor value in `[0, 50)`.
pub open spec fn scale_armor(r: u16) -> u16 {
    ((r * 50) / 32768) as u16
}

/// A raw draw scaled to a damage amount in `[10, 30)`.
pub open spec fn scale_damage(r: u16) -> u16 {
    ((r * 20) / 32768 + 10) as u16
}

/// A raw draw scaled to a target handle in `[0, n)`: `floor(r * n / 32768)`.
/// The handle may name a missing entity or the attacker itself.
pub open spec fn scale_target(r: u16, n: u32) -> u32 {
    ((r * n) / 32768) as u32
}

/// A raw draw scaled to a team id in `0..=3`.
pub open spec fn scale_team(r: u16) -> u8 {
    ((r * 4) / 32768) as u8
}

/// A raw draw scaled to a lifetime budget in `[0, 5000)` milliseconds.
pub open spec fn scale_lifetime(r: u16) -> i64 {
    ((r * 5000) / 32768) as i64
}

/// The armor draw: one gate draw, then one payload draw if it passes.
pub open spec fn spec_draw_armor(st: u32) -> (Option<Armor>, u32) {
    let st1 = lcg_step(st);
    if raw_of(st1) >= GATE_ARMOR {
        let st2 = lcg_step(st1);
        (Some(Armor { value: scale_armor(raw_of(st2)) }), st2)
    } else {
        (None, st1)
    }
}

/// The attack-kit draw: a gate draw, then target and damage payload draws.
pub open spec fn spec_draw_attack(st: u32, n: u32) -> (Option<AttackKit>, u32) {
    let st1 = lcg_step(st);
    if raw_of(st1) >= GATE_ATTACK {
        let st2 = lcg_step(st1);
        let st3 = lcg_step(st2);
        (
            Some(
                AttackKit {
                    damage: Damage { amount: scale_damage(raw_of(st3)) },
                    cooldown: Cooldown { current: 0, max: START_COOLDOWN_MAX },
                    target: Target { entity_id: scale_target(raw_of(st2), n) },
                },
            ),
            st3,
        )
    } else {
        (None, st1)
    }
}

/// The team draw: unconditional, one draw.
pub open spec fn spec_draw_team(st: u32) -> (Team, u32) {
    let st1 = lcg_step(st);
    (Team { id: scale_team(raw_of(st1)) }, st1)
}

/// The status draw: a gate draw, then one draw per flag if it passes.
pub open spec fn spec_draw_status(st: u32) -> (Option<Status>, u32) {
    let st1 = lcg_step(st);
    if raw_of(st1) >= GATE_STATUS {
        let st2 = lcg_step(st1);
        let st3 = lcg_step(st2);
        (
            Some(
                Status {
                    stunned: if raw_of(st2) >= GATE_FLAG { 1u8 } else { 0u8 },
                    slowed: if raw_of(st3) >= GATE_FLAG { 1u8 } else { 0u8 },
                },
            ),
            st3,
        )
    } else {
        (None, st1)
    }
}

/// The lifetime draw: a gate draw, then one payload draw if it passes.
pub open spec fn spec_draw_lifetime(st: u32) -> (Option<Lifetime>, u32) {
    let st1 = lcg_step(st);
    if raw_of(st1) >= GATE_LIFETIME {
        let st2 = lcg_step(st1);
        (Some(Lifetime { remaining: scale_lifetime(raw_of(st2)) }), st2)
    } else {
        (None, st1)
    }
}

/// One whole entity drawn from state `st`, with handle `id`, in a population
/// of `n`: five mandatory draws, then the optional attributes in fixed order.
#[verifier::opaque]
pub open spec fn spec_gen_entity(st: u32, id: u32, n: u32) -> (Entity, u32) {
    let st1 = lcg_step(st);
    let st2 = lcg_step(st1);
    let st3 = lcg_step(st2);
    let st4 = lcg_step(st3);
    let st5 = lcg_step(st4);
    let (armor, st6) = spec_draw_armor(st5);
    let (attack, st7) = spec_draw_attack(st6, n);
    let (team, st8) = spec_draw_team(st7);
    let (status, st9) = spec_draw_status(st8);
    let (lifetime, st10) = spec_draw_lifetime(st9);
    (
        Entity {
            id,
            transform: Transform2D {
                x: scale_pos(raw_of(st1)),
                y: scale_pos(raw_of(st2)),
                rotation: scale_rot(raw_of(st3)),
            },
            velocity: Velocity { vx: scale_vel(raw_of(st4)), vy: scale_vel(raw_of(st5)) },
            health: Health { current: 100, max: 100 },
            armor,
            attack,
            team,
            status,
            lifetime,
        },
        st10,
    )
}

/// The first `i` entities of a population of `n` grown from `seed`, together
/// with the generator state left behind.
pub open spec fn spec_gen_upto(n: u32, seed: u32, i: int) -> (Seq<Entity>, u32)
    decreases i,
{
    if i <= 0 {
        (Seq::empty(), seed)
    } else {
        let (prefix, st) = spec_gen_upto(n, seed, i - 1);
        let (e, st2) = spec_gen_entity(st, (i - 1) as u32, n);
        (prefix.push(e), st2)
    }
}

/// The whole population of `n` entities grown from `seed`.
pub open spec fn spec_generate(n: u32, seed: u32) -> Seq<Entity> {
    spec_gen_upto(n, seed, n as int).0
}


/// Scale a raw draw to a world coordinate in milli-units.
fn pos_from_raw(r: u16) -> (p: i64)
    requires
        r < 32768,
    ensures
        p == scale_pos(r),
        0 <= p <= WORLD_MAX,
{
    proof {
        vstd::arithmetic::div_mod::lemma_div_is_ordered(r as int * 15625, 32767int * 15625, 512);
    }
    ((r as u64 * 15625) / 512) as i64
}

/// Scale a raw draw to a velocity component in milli-units per second.
fn vel_from_raw(r: u16) -> (v: i64)
    requires
        r < 32768,
    ensures
        v == scale_vel(r),
        -5000 <= v < 5000,
{
    proof {
        vstd::arithmetic::div_mod::lemma_div_is_ordered(r as int * 625, 32767int * 625, 2048);
    }
    ((r as u64 * 625) / 2048) as i64 - 5000
}

/// Scale a raw draw to a heading in milliradians.
fn rot_from_raw(r: u16) -> (a: i64)
    requires
        r < 32768,
    ensures
        a == scale_rot(r),
        0 <= a < 6283,
{
    proof {
        vstd::arithmetic::div_mod::lemma_div_is_ordered(r as int * 6283, 32767int * 6283, 32768);
    }
    ((r as u64 * 6283) / 32768) as i64
}

/// Scale a raw draw to a lifetime budget in milliseconds.
fn lifetime_from_raw(r: u16) -> (t: i64)
    requires
        r < 32768,
    ensures
        t == scale_lifetime(r),
        0 <= t < 5000,
{
    proof {
        vstd::arithmetic::div_mod::lemma_div_is_ordered(r as int * 5000, 32767int * 5000, 32768);
    }
    ((r as u64 * 5000) / 32768) as i64
}

/// Scale a raw draw to a target handle in a population of `n`.
fn target_from_raw(r: u16, n: u32) -> (t: u32)
    requires
        r < 32768,
    ensures
        t == scale_target(r, n),
{
    proof {
        vstd::arithmetic::mul::lemma_mul_inequality(r as int, 32768, n as int);
        vstd::arithmetic::div_mod::lemma_div_is_ordered(
            r as int * n as int,
            32768int * n as int,
            32768,
        );
        vstd::arithmetic::mul::lemma_mul_is_commutative(32768, n as int);
        vstd::arithmetic::div_mod::lemma_div_by_multiple(n as int, 32768);
    }
    ((r as u64 * n as u64) / 32768) as u32
}

/// Draw the armor attribute, advancing the generator one or two steps.
fn draw_armor(rng: &mut SimpleRng) -> (a: Option<Armor>)
    ensures
        (a, final(rng).seed) == spec_draw_armor(old(rng).seed),
{
    if rng.next_raw() >= GATE_ARMOR {
        let rv = rng.next_raw();
        Some(Armor { value: ((rv as u32 * 50) / 32768) as u16 })
    } else {
        None
    }
}

/// Draw the attack kit, advancing the generator one or three steps.
fn draw_attack(rng: &mut SimpleRng, n: u32) -> (a: Option<AttackKit>)
    ensures
        (a, final(rng).seed) == spec_draw_attack(old(rng).seed, n),
{
    if rng.next_raw() >= GATE_ATTACK {
        let rt = rng.next_raw();
        let rd = rng.next_raw();
        let target_id = target_from_raw(rt, n);
        Some(
            AttackKit {
                damage: Damage { amount: ((rd as u32 * 20) / 32768 + 10) as u16 },
                cooldown: Cooldown { current: 0, max: START_COOLDOWN_MAX },
                target: Target { entity_id: target_id },
            },
        )
    } else {
        None
    }
}

/// Draw the team, advancing the generator one step.
fn draw_team(rng: &mut SimpleRng) -> (t: Team)
    ensures
        (t, final(rng).seed) == spec_draw_team(old(rng).seed),
{
    let rteam = rng.next_raw();
    Team { id: ((rteam as u32 * 4) / 32768) as u8 }
}

/// Draw the status flags, advancing the generator one or three steps.
fn draw_status(rng: &mut SimpleRng) -> (st: Option<Status>)
    ensures
        (st, final(rng).seed) == spec_draw_status(old(rng).seed),
{
    if rng.next_raw() >= GATE_STATUS {
        let rs = rng.next_raw();
        let rl = rng.next_raw();
        Some(
            Status {
                stunned: if rs >= GATE_FLAG { 1 } else { 0 },
                slowed: if rl >= GATE_FLAG { 1 } else { 0 },
            },
        )
    } else {
        None
    }
}

/// Draw the lifetime budget, advancing the generator one or two steps.
fn draw_lifetime(rng: &mut SimpleRng) -> (l: Option<Lifetime>)
    ensures
        (l, final(rng).seed) == spec_draw_lifetime(old(rng).seed),
        l is Some ==> l->0.remaining >= 0,
{
    if rng.next_raw() >= GATE_LIFETIME {
        let rv = rng.next_raw();
        Some(Lifetime { remaining: lifetime_from_raw(rv) })
    } else {
        None
    }
}

/// Draw one entity with handle `id` for a population of `n`, advancing the
/// generator exactly as many draws as the attribute gates demand.
fn gen_one(rng: &mut SimpleRng, id: u32, n: u32) -> (e: Entity)
    ensures
        (e, final(rng).seed) == spec_gen_entity(old(rng).seed, id, n),
        entity_ok(e),
        pos_strict(e),
        e.id == id,
{
    let ghost st0 = rng.seed;
    let rx = rng.next_raw();
    let ry = rng.next_raw();
    let rr = rng.next_raw();
    let rvx = rng.next_raw();
    let rvy = rng.next_raw();
    let x = pos_from_raw(rx);
    let y = pos_from_raw(ry);
    let rotation = rot_from_raw(rr);
    let vx = vel_from_raw(rvx);
    let vy = vel_from_raw(rvy);

    let armor = draw_armor(rng);
    let attack = draw_attack(rng, n);
    let team = draw_team(rng);
    let status = draw_status(rng);
    let lifetime = draw_lifetime(rng);

    let e = Entity {
        id,
        transform: Transform2D { x, y, rotation },
        velocity: Velocity { vx, vy },
        health: Health { current: 100, max: 100 },
        armor,
        attack,
        team,
        status,
        lifetime,
    };
    proof {
        reveal(spec_gen_entity);
        assert((e, rng.seed) == spec_gen_entity(st0, id, n));
    }
    e
}

/// The generated prefix holds exactly as many entities as were drawn.
pub proof fn lemma_gen_upto_len(n: u32, seed: u32, i: int)
    requires
        0 <= i,
    ensures
        spec_gen_upto(n, seed, i).0.len() == i,
    decreases i,
{
    if i > 0 {
        lemma_gen_upto_len(n, seed, i - 1);
    }
}

/// Build the population of `n` entities from `seed`. The result is pinned
/// entirely by the two arguments: identical seeds give identical populations.
pub fn generate(n: u32, seed: u32) -> (pop: Vec<Entity>)
    ensures
        pop@ == spec_generate(n, seed),
        pop@.len() == n as int,
        pop_wf(pop@),
        forall|i: int| 0 <= i < n as int ==> (#[trigger] pop@[i]).id == i as u32,
{
    let mut rng = SimpleRng::new(seed);
    let mut pop: Vec<Entity> = Vec::new();
    let mut i: u32 = 0;
    while i < n
        invariant
            i <= n,
            (pop@, rng.seed) == spec_gen_upto(n, seed, i as int),
            pop@.len() == i as int,
            pop_wf(pop@),
            forall|j: int| 0 <= j < i as int ==> (#[trigger] pop@[j]).id == j as u32,
        decreases n - i,
    {
        let e = gen_one(&mut rng, i, n);
        pop.push(e);
        i += 1;
    }
    pop
}

/// Law: generation is reproducible prefix by prefix — growing a longer
/// population never changes the entities an earlier prefix already fixed.
pub proof fn lemma_generate_prefix(n: u32, seed: u32, i: int, j: int)
    requires
        0 <= i <= j,
    ensures
        spec_gen_upto(n, seed, i).0 =~= spec_gen_upto(n, seed, j).0.take(i),
    decreases j - i,
{
    lemma_gen_upto_len(n, seed, i);
    lemma_gen_upto_len(n, seed, j);
    if j > i {
        lemma_gen_upto_len(n, seed, j - 1);
        lemma_generate_prefix(n, seed, i, j - 1);
        assert(spec_gen_upto(n, seed, j).0.take(i) =~= spec_gen_upto(n, seed, j - 1).0.take(i));
    } else {
        assert(spec_gen_upto(n, seed, i).0 =~= spec_gen_upto(n, seed, i).0.take(i));
    }
}

} // verus!
