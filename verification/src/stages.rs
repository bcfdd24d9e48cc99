//! The per-frame update pipeline: eleven stages applied in a fixed order.
//!
//! Every stage is a pure transformation of the population, gated where an
//! amortised load shape demands it (regeneration every 30 frames, combat every
//! 5, jitter every 20). The order is significant and `step` applies it
//! exactly: movement, rotation, boundary wrap, health regeneration, cooldown
//! decay, combat, death, status effects, lifetime expiry, velocity damping,
//! and jitter. All divisions of fixed-point quantities truncate toward zero.

use crate::entity::{Armor, AttackKit, Cooldown, Entity, Health, Lifetime, Status, Transform2D,
    Velocity, entity_ok, find_entity, lemma_find_from_same_ids, pop_wf, pop_wf_loose, pos_loose,
    pos_strict, spec_find, NUDGE_LIMIT, VEL_LIMIT, WORLD_MAX};
use crate::rng::{SimpleRng, lcg_step, raw_of};
use vstd::prelude::*;

verus! {

/// Integer division rounding toward zero, as every fixed-point scaling in the
/// pipeline uses it.
pub open spec fn spec_div_trunc(a: int, b: int) -> int {
    if a >= 0 {
        a / b
    } else {
        -((-a) / b)
    }
}

/// A truncated quotient never grows past `m / b` when `|a| <= m`.
pub proof fn lemma_div_trunc_bound(a: int, b: int, m: int)
    requires
        b > 0,
        -m <= a <= m,
        0 <= m,
    ensures
        -(m / b) <= spec_div_trunc(a, b) <= m / b,
{
    if a >= 0 {
        vstd::arithmetic::div_mod::lemma_div_is_ordered(a, m, b);
        vstd::arithmetic::div_mod::lemma_div_pos_is_pos(a, b);
    } else {
        vstd::arithmetic::div_mod::lemma_div_is_ordered(-a, m, b);
        vstd::arithmetic::div_mod::lemma_div_pos_is_pos(-a, b);
    }
}

/// Divide truncating toward zero.
fn div_trunc(a: i64, b: i64) -> (q: i64)
    requires
        b > 0,
        a > i64::MIN,
    ensures
        q == spec_div_trunc(a as int, b as int),
        a >= 0 ==> 0 <= q <= a,
        a < 0 ==> a <= q <= 0,
{
    proof {
        if a >= 0 {
            lemma_div_trunc_bound(a as int, b as int, a as int);
            vstd::arithmetic::div_mod::lemma_div_is_ordered_by_denominator(a as int, 1, b as int);
        } else {
            lemma_div_trunc_bound(a as int, b as int, -(a as int));
            vstd::arithmetic::div_mod::lemma_div_is_ordered_by_denominator(
                -(a as int),
                1,
                b as int,
            );
        }
    }
    if a >= 0 {
        ((a as u64) / (b as u64)) as i64
    } else {
        -((((-a) as u64) / (b as u64)) as i64)
    }
}

/// The movement stage on one entity: `position += velocity * dt`, with `dt`
/// in milliseconds and velocity in milli-units per second.
pub open spec fn spec_move_entity(e: Entity, dt: int) -> Entity {
    Entity {
        transform: Transform2D {
            x: (e.transform.x + spec_div_trunc(e.velocity.vx * dt, 1000)) as i64,
            y: (e.transform.y + spec_div_trunc(e.velocity.vy * dt, 1000)) as i64,
            rotation: e.transform.rotation,
        },
        ..e
    }
}

/// Movement: every entity drifts by `velocity * dt`.
pub fn movement_system(pop: &mut Vec<Entity>, dt_ms: i64)
    requires
        pop_wf(old(pop)@),
        0 <= dt_ms <= 1000,
    ensures
        final(pop)@ == old(pop)@.map_values(|e: Entity| spec_move_entity(e, dt_ms as int)),
        pop_wf_loose(final(pop)@),
{
    let n = pop.len();
    let mut i: usize = 0;
    while i < n
        invariant
            i <= n,
            n == old(pop)@.len(),
            pop@.len() == n,
            pop_wf(old(pop)@),
            0 <= dt_ms <= 1000,
            forall|j: int|
                0 <= j < i as int ==> #[trigger] pop@[j] == spec_move_entity(
                    old(pop)@[j],
                    dt_ms as int,
                ),
            forall|j: int|
                0 <= j < i as int ==> entity_ok(#[trigger] pop@[j]) && pos_loose(pop@[j]),
            forall|j: int| i as int <= j < n as int ==> #[trigger] pop@[j] == old(pop)@[j],
        decreases n - i,
    {
        let e = pop[i];
        proof {
            assert(entity_ok(old(pop)@[i as int]) && pos_strict(old(pop)@[i as int]));
            assert(-100_000_000 <= e.velocity.vx * dt_ms <= 100_000_000
                && -100_000_000 <= e.velocity.vy * dt_ms <= 100_000_000) by (nonlinear_arith)
                requires
                    -VEL_LIMIT <= e.velocity.vx <= VEL_LIMIT,
                    -VEL_LIMIT <= e.velocity.vy <= VEL_LIMIT,
                    0 <= dt_ms <= 1000,
            ;
        }
        let dx = div_trunc(e.velocity.vx * dt_ms, 1000);
        let dy = div_trunc(e.velocity.vy * dt_ms, 1000);
        proof {
            lemma_div_trunc_bound(e.velocity.vx * dt_ms, 1000, 100_000_000);
            lemma_div_trunc_bound(e.velocity.vy * dt_ms, 1000, 100_000_000);
        }
        let e2 = Entity {
            transform: Transform2D {
                x: e.transform.x + dx,
                y: e.transform.y + dy,
                rotation: e.transform.rotation,
            },
            ..e
        };
        pop[i] = e2;
        i += 1;
    }
    proof {
        assert(pop@ =~= old(pop)@.map_values(|e: Entity| spec_move_entity(e, dt_ms as int)));
    }
}

/// The diamond-angle heading of a non-zero velocity, in milliradians in
/// `[0, 6284]`: an exact integer approximation of the arctangent direction,
/// linear within each octant and exact on the axes.
pub open spec fn spec_heading(vx: int, vy: int) -> int {
    let ax = if vx >= 0 {
        vx
    } else {
        -vx
    };
    let ay = if vy >= 0 {
        vy
    } else {
        -vy
    };
    let d = if vx >= 0 && vy >= 0 {
        (1000 * ay) / (ax + ay)
    } else if vx < 0 && vy >= 0 {
        1000 + (1000 * ax) / (ax + ay)
    } else if vx < 0 && vy < 0 {
        2000 + (1000 * ay) / (ax + ay)
    } else {
        3000 + (1000 * ax) / (ax + ay)
    };
    (d * 1571) / 1000
}

/// The rotation stage on one entity: a moving entity faces its velocity.
pub open spec fn spec_rotate_entity(e: Entity) -> Entity {
    if e.velocity.vx != 0 || e.velocity.vy != 0 {
        Entity {
            transform: Transform2D {
                rotation: spec_heading(e.velocity.vx as int, e.velocity.vy as int) as i64,
                ..e.transform
            },
            ..e
        }
    } else {
        e
    }
}

/// Compute the heading of a non-zero velocity.
fn heading_of(vx: i64, vy: i64) -> (r: i64)
    requires
        -VEL_LIMIT <= vx <= VEL_LIMIT,
        -VEL_LIMIT <= vy <= VEL_LIMIT,
        vx != 0 || vy != 0,
    ensures
        r == spec_heading(vx as int, vy as int),
        0 <= r <= 6284,
{
    let ax: u64 = if vx >= 0 {
        vx as u64
    } else {
        (-vx) as u64
    };
    let ay: u64 = if vy >= 0 {
        vy as u64
    } else {
        (-vy) as u64
    };
    let den = ax + ay;
    proof {
        vstd::arithmetic::div_mod::lemma_div_is_ordered(
            1000 * ay as int,
            1000 * (den as int),
            den as int,
        );
        vstd::arithmetic::div_mod::lemma_div_is_ordered(
            1000 * ax as int,
            1000 * (den as int),
            den as int,
        );
        vstd::arithmetic::div_mod::lemma_div_by_multiple(1000, den as int);
        vstd::arithmetic::mul::lemma_mul_is_commutative(1000, den as int);
        vstd::arithmetic::div_mod::lemma_div_pos_is_pos(1000 * ay as int, den as int);
        vstd::arithmetic::div_mod::lemma_div_pos_is_pos(1000 * ax as int, den as int);
    }
    let d: u64 = if vx >= 0 && vy >= 0 {
        (1000 * ay) / den
    } else if vx < 0 && vy >= 0 {
        1000 + (1000 * ax) / den
    } else if vx < 0 && vy < 0 {
        2000 + (1000 * ay) / den
    } else {
        3000 + (1000 * ax) / den
    };
    proof {
        vstd::arithmetic::div_mod::lemma_div_is_ordered(d as int * 1571, 4000int * 1571, 1000);
        vstd::arithmetic::div_mod::lemma_div_pos_is_pos(d as int * 1571, 1000);
    }
    ((d * 1571) / 1000) as i64
}

/// Rotation: every moving entity turns to face its velocity; an entity at
/// rest keeps its old heading.
pub fn rotation_system(pop: &mut Vec<Entity>)
    requires
        pop_wf_loose(old(pop)@),
    ensures
        final(pop)@ == old(pop)@.map_values(|e: Entity| spec_rotate_entity(e)),
        pop_wf_loose(final(pop)@),
{
    let n = pop.len();
    let mut i: usize = 0;
    while i < n
        invariant
            i <= n,
            n == old(pop)@.len(),
            pop@.len() == n,
            pop_wf_loose(old(pop)@),
            forall|j: int|
                0 <= j < i as int ==> #[trigger] pop@[j] == spec_rotate_entity(old(pop)@[j]),
            forall|j: int|
                0 <= j < i as int ==> entity_ok(#[trigger] pop@[j]) && pos_loose(pop@[j]),
            forall|j: int| i as int <= j < n as int ==> #[trigger] pop@[j] == old(pop)@[j],
        decreases n - i,
    {
        let e = pop[i];
        if e.velocity.vx != 0 || e.velocity.vy != 0 {
            let r = heading_of(e.velocity.vx, e.velocity.vy);
            let e2 = Entity {
                transform: Transform2D { rotation: r, ..e.transform },
                ..e
            };
            pop[i] = e2;
        }
        i += 1;
    }
    proof {
        assert(pop@ =~= old(pop)@.map_values(|e: Entity| spec_rotate_entity(e)));
    }
}

/// Wrap one coordinate: a position past either world edge teleports to the
/// opposite edge.
pub open spec fn spec_wrap(c: int) -> i64 {
    if c < 0 {
        WORLD_MAX
    } else if c > WORLD_MAX {
        0i64
    } else {
        c as i64
    }
}

/// The boundary stage on one entity.
pub open spec fn spec_bound_entity(e: Entity) -> Entity {
    Entity {
        transform: Transform2D {
            x: spec_wrap(e.transform.x as int),
            y: spec_wrap(e.transform.y as int),
            rotation: e.transform.rotation,
        },
        ..e
    }
}

/// Boundary wrap: both coordinates of every entity are pulled back into the
/// world box, whatever they were.
pub fn boundary_system(pop: &mut Vec<Entity>)
    requires
        pop_wf_loose(old(pop)@),
    ensures
        final(pop)@ == old(pop)@.map_values(|e: Entity| spec_bound_entity(e)),
        pop_wf(final(pop)@),
{
    let n = pop.len();
    let mut i: usize = 0;
    while i < n
        invariant
            i <= n,
            n == old(pop)@.len(),
            pop@.len() == n,
            pop_wf_loose(old(pop)@),
            forall|j: int|
                0 <= j < i as int ==> #[trigger] pop@[j] == spec_bound_entity(old(pop)@[j]),
            forall|j: int|
                0 <= j < i as int ==> entity_ok(#[trigger] pop@[j]) && pos_strict(pop@[j]),
            forall|j: int| i as int <= j < n as int ==> #[trigger] pop@[j] == old(pop)@[j],
        decreases n - i,
    {
        let e = pop[i];
        let mut x = e.transform.x;
        let mut y = e.transform.y;
        if x < 0 {
            x = WORLD_MAX;
        }
        if x > WORLD_MAX {
            x = 0;
        }
        if y < 0 {
            y = WORLD_MAX;
        }
        if y > WORLD_MAX {
            y = 0;
        }
        let e2 = Entity {
            transform: Transform2D { x, y, rotation: e.transform.rotation },
            ..e
        };
        pop[i] = e2;
        i += 1;
    }
    proof {
        assert(pop@ =~= old(pop)@.map_values(|e: Entity| spec_bound_entity(e)));
    }
}

/// The regeneration stage on one entity: a living, wounded entity heals five
/// points, capped at its maximum.
pub open spec fn spec_regen_entity(e: Entity) -> Entity {
    if 0 < e.health.current < e.health.max {
        let healed = if e.health.current + 5 > e.health.max {
            e.health.max
        } else {
            (e.health.current + 5) as u16
        };
        Entity { health: Health { current: healed, max: e.health.max }, ..e }
    } else {
        e
    }
}

/// The regeneration stage over the population: it runs every 30th frame and
/// leaves other frames untouched.
pub open spec fn spec_regen(s: Seq<Entity>, frame: u32) -> Seq<Entity> {
    if frame % 30 == 0 {
        s.map_values(|e: Entity| spec_regen_entity(e))
    } else {
        s
    }
}

/// Health regeneration: every 30th frame each living, wounded entity heals
/// five points, never past its maximum; a dead entity stays dead.
pub fn health_regen_system(pop: &mut Vec<Entity>, frame: u32)
    requires
        pop_wf(old(pop)@),
    ensures
        final(pop)@ == spec_regen(old(pop)@, frame),
        pop_wf(final(pop)@),
{
    if frame % 30 != 0 {
        return ;
    }
    let n = pop.len();
    let mut i: usize = 0;
    while i < n
        invariant
            i <= n,
            n == old(pop)@.len(),
            pop@.len() == n,
            pop_wf(old(pop)@),
            forall|j: int|
                0 <= j < i as int ==> #[trigger] pop@[j] == spec_regen_entity(old(pop)@[j]),
            forall|j: int|
                0 <= j < i as int ==> entity_ok(#[trigger] pop@[j]) && pos_strict(pop@[j]),
            forall|j: int| i as int <= j < n as int ==> #[trigger] pop@[j] == old(pop)@[j],
        decreases n - i,
    {
        let e = pop[i];
        proof {
            assert(entity_ok(old(pop)@[i as int]) && pos_strict(old(pop)@[i as int]));
        }
        if e.health.current > 0 && e.health.current < e.health.max {
            let raised = e.health.current as u32 + 5;
            let healed = if raised > e.health.max as u32 {
                e.health.max
            } else {
                raised as u16
            };
            let e2 = Entity { health: Health { current: healed, max: e.health.max }, ..e };
            pop[i] = e2;
        }
        i += 1;
    }
    proof {
        assert(pop@ =~= old(pop)@.map_values(|e: Entity| spec_regen_entity(e)));
    }
}

/// The cooldown stage on one entity: a running cooldown loses `dt`
/// milliseconds, clamped at zero.
pub open spec fn spec_cooldown_entity(e: Entity, dt: u32) -> Entity {
    match e.attack {
        Some(k) => {
            if k.cooldown.current > 0 {
                let lowered = if k.cooldown.current > dt {
                    (k.cooldown.current - dt) as u32
                } else {
                    0u32
                };
                Entity {
                    attack: Some(
                        AttackKit {
                            cooldown: Cooldown { current: lowered, max: k.cooldown.max },
                            ..k
                        },
                    ),
                    ..e
                }
            } else {
                e
            }
        },
        None => e,
    }
}

/// Cooldown decay: every running attack cooldown loses `dt` milliseconds,
/// clamped at zero.
pub fn cooldown_system(pop: &mut Vec<Entity>, dt_ms: u32)
    requires
        pop_wf(old(pop)@),
    ensures
        final(pop)@ == old(pop)@.map_values(|e: Entity| spec_cooldown_entity(e, dt_ms)),
        pop_wf(final(pop)@),
{
    let n = pop.len();
    let mut i: usize = 0;
    while i < n
        invariant
            i <= n,
            n == old(pop)@.len(),
            pop@.len() == n,
            pop_wf(old(pop)@),
            forall|j: int|
                0 <= j < i as int ==> #[trigger] pop@[j] == spec_cooldown_entity(
                    old(pop)@[j],
                    dt_ms,
                ),
            forall|j: int|
                0 <= j < i as int ==> entity_ok(#[trigger] pop@[j]) && pos_strict(pop@[j]),
            forall|j: int| i as int <= j < n as int ==> #[trigger] pop@[j] == old(pop)@[j],
        decreases n - i,
    {
        let e = pop[i];
        proof {
            assert(entity_ok(old(pop)@[i as int]) && pos_strict(old(pop)@[i as int]));
        }
        match e.attack {
            Some(k) => {
                if k.cooldown.current > 0 {
                    let lowered = if k.cooldown.current > dt_ms {
                        k.cooldown.current - dt_ms
                    } else {
                        0
                    };
                    let e2 = Entity {
                        attack: Some(
                            AttackKit {
                                cooldown: Cooldown { current: lowered, max: k.cooldown.max },
                                ..k
                            },
                        ),
                        ..e
                    };
                    pop[i] = e2;
                }
            },
            None => {},
        }
        i += 1;
    }
    proof {
        assert(pop@ =~= old(pop)@.map_values(|e: Entity| spec_cooldown_entity(e, dt_ms)));
    }
}

/// The status stage on one entity: a stunned entity stops dead; otherwise a
/// slowed entity halves each velocity component (truncating toward zero).
pub open spec fn spec_status_entity(e: Entity) -> Entity {
    match e.status {
        Some(st) => {
            if st.stunned == 1 {
                Entity { velocity: Velocity { vx: 0, vy: 0 }, ..e }
            } else if st.slowed == 1 {
                Entity {
                    velocity: Velocity {
                        vx: spec_div_trunc(e.velocity.vx as int, 2) as i64,
                        vy: spec_div_trunc(e.velocity.vy as int, 2) as i64,
                    },
                    ..e
                }
            } else {
                e
            }
        },
        None => e,
    }
}

/// Status effects: stunned entities stop, slowed ones halve their speed;
/// stun takes priority over slow.
pub fn status_effect_system(pop: &mut Vec<Entity>)
    requires
        pop_wf(old(pop)@),
    ensures
        final(pop)@ == old(pop)@.map_values(|e: Entity| spec_status_entity(e)),
        pop_wf(final(pop)@),
{
    let n = pop.len();
    let mut i: usize = 0;
    while i < n
        invariant
            i <= n,
            n == old(pop)@.len(),
            pop@.len() == n,
            pop_wf(old(pop)@),
            forall|j: int|
                0 <= j < i as int ==> #[trigger] pop@[j] == spec_status_entity(old(pop)@[j]),
            forall|j: int|
                0 <= j < i as int ==> entity_ok(#[trigger] pop@[j]) && pos_strict(pop@[j]),
            forall|j: int| i as int <= j < n as int ==> #[trigger] pop@[j] == old(pop)@[j],
        decreases n - i,
    {
        let e = pop[i];
        proof {
            assert(entity_ok(old(pop)@[i as int]) && pos_strict(old(pop)@[i as int]));
        }
        match e.status {
            Some(st) => {
                if st.stunned == 1 {
                    let e2 = Entity { velocity: Velocity { vx: 0, vy: 0 }, ..e };
                    pop[i] = e2;
                } else if st.slowed == 1 {
                    let hx = div_trunc(e.velocity.vx, 2);
                    let hy = div_trunc(e.velocity.vy, 2);
                    let e2 = Entity { velocity: Velocity { vx: hx, vy: hy }, ..e };
                    pop[i] = e2;
                }
            },
            None => {},
        }
        i += 1;
    }
    proof {
        assert(pop@ =~= old(pop)@.map_values(|e: Entity| spec_status_entity(e)));
    }
}

/// The damping stage on one entity: each velocity component shrinks to 99%
/// of itself, truncating toward zero.
pub open spec fn spec_damp_entity(e: Entity) -> Entity {
    Entity {
        velocity: Velocity {
            vx: spec_div_trunc(e.velocity.vx * 99, 100) as i64,
            vy: spec_div_trunc(e.velocity.vy * 99, 100) as i64,
        },
        ..e
    }
}

/// Population whose velocities have room for one jitter nudge; the damping
/// stage leaves the population in this state.
pub open spec fn pop_damped(s: Seq<Entity>) -> bool {
    &&& pop_wf(s)
    &&& forall|i: int|
        0 <= i < s.len() ==> -(VEL_LIMIT - NUDGE_LIMIT) <= (#[trigger] s[i]).velocity.vx <= VEL_LIMIT
            - NUDGE_LIMIT && -(VEL_LIMIT - NUDGE_LIMIT) <= s[i].velocity.vy <= VEL_LIMIT
            - NUDGE_LIMIT
}

/// Velocity damping: every entity loses one percent of its speed.
pub fn velocity_damping_system(pop: &mut Vec<Entity>)
    requires
        pop_wf(old(pop)@),
    ensures
        final(pop)@ == old(pop)@.map_values(|e: Entity| spec_damp_entity(e)),
        pop_damped(final(pop)@),
{
    let n = pop.len();
    let mut i: usize = 0;
    while i < n
        invariant
            i <= n,
            n == old(pop)@.len(),
            pop@.len() == n,
            pop_wf(old(pop)@),
            forall|j: int|
                0 <= j < i as int ==> #[trigger] pop@[j] == spec_damp_entity(old(pop)@[j]),
            forall|j: int|
                0 <= j < i as int ==> entity_ok(#[trigger] pop@[j]) && pos_strict(pop@[j])
                    && -(VEL_LIMIT - NUDGE_LIMIT) <= pop@[j].velocity.vx <= VEL_LIMIT - NUDGE_LIMIT
                    && -(VEL_LIMIT - NUDGE_LIMIT) <= pop@[j].velocity.vy <= VEL_LIMIT
                    - NUDGE_LIMIT,
            forall|j: int| i as int <= j < n as int ==> #[trigger] pop@[j] == old(pop)@[j],
        decreases n - i,
    {
        let e = pop[i];
        proof {
            assert(entity_ok(old(pop)@[i as int]) && pos_strict(old(pop)@[i as int]));
            lemma_div_trunc_bound(e.velocity.vx * 99, 100, 9_900_000);
            lemma_div_trunc_bound(e.velocity.vy * 99, 100, 9_900_000);
        }
        let dx = div_trunc(e.velocity.vx * 99, 100);
        let dy = div_trunc(e.velocity.vy * 99, 100);
        let e2 = Entity { velocity: Velocity { vx: dx, vy: dy }, ..e };
        pop[i] = e2;
        i += 1;
    }
    proof {
        assert(pop@ =~= old(pop)@.map_values(|e: Entity| spec_damp_entity(e)));
    }
}

/// The survivors of the death stage: every entity whose health has reached
/// zero is removed, in order.
pub open spec fn spec_death(s: Seq<Entity>) -> Seq<Entity>
    decreases s.len(),
{
    if s.len() == 0 {
        Seq::empty()
    } else {
        let pre = spec_death(s.drop_last());
        if s.last().health.current == 0 {
            pre
        } else {
            pre.push(s.last())
        }
    }
}

/// Death: every entity with zero health is removed; the rest keep their order.
pub fn death_system(pop: &mut Vec<Entity>)
    requires
        pop_wf(old(pop)@),
    ensures
        final(pop)@ == spec_death(old(pop)@),
        final(pop)@.len() <= old(pop)@.len(),
        pop_wf(final(pop)@),
{
    let n = pop.len();
    let mut out: Vec<Entity> = Vec::new();
    let mut i: usize = 0;
    while i < n
        invariant
            i <= n,
            n == pop@.len(),
            pop@ == old(pop)@,
            pop_wf(old(pop)@),
            out@ == spec_death(pop@.take(i as int)),
            out@.len() <= i as int,
            pop_wf(out@),
        decreases n - i,
    {
        proof {
            assert(pop@.take(i as int + 1).drop_last() =~= pop@.take(i as int));
            assert(entity_ok(pop@[i as int]) && pos_strict(pop@[i as int]));
        }
        let e = pop[i];
        if e.health.current != 0 {
            out.push(e);
        }
        i += 1;
    }
    proof {
        assert(pop@.take(n as int) =~= pop@);
    }
    *pop = out;
}

/// The lifetime stage on one entity: a lifetime budget loses `dt`
/// milliseconds; the entity survives only while some budget is left.
pub open spec fn spec_lifetime_entity(e: Entity, dt: int) -> Option<Entity> {
    match e.lifetime {
        Some(l) => {
            if l.remaining - dt <= 0 {
                None
            } else {
                Some(
                    Entity { lifetime: Some(Lifetime { remaining: (l.remaining - dt) as i64 }), ..e },
                )
            }
        },
        None => Some(e),
    }
}

/// The lifetime stage over the population: expired entities are removed, the
/// rest keep their order and store the lowered budget.
pub open spec fn spec_lifetime(s: Seq<Entity>, dt: int) -> Seq<Entity>
    decreases s.len(),
{
    if s.len() == 0 {
        Seq::empty()
    } else {
        let pre = spec_lifetime(s.drop_last(), dt);
        match spec_lifetime_entity(s.last(), dt) {
            Some(e) => pre.push(e),
            None => pre,
        }
    }
}

/// Lifetime expiry: each budgeted entity pays `dt` milliseconds and is
/// removed the moment its budget runs out.
pub fn lifetime_system(pop: &mut Vec<Entity>, dt_ms: i64)
    requires
        pop_wf(old(pop)@),
        0 <= dt_ms <= 1000,
    ensures
        final(pop)@ == spec_lifetime(old(pop)@, dt_ms as int),
        final(pop)@.len() <= old(pop)@.len(),
        pop_wf(final(pop)@),
{
    let n = pop.len();
    let mut out: Vec<Entity> = Vec::new();
    let mut i: usize = 0;
    while i < n
        invariant
            i <= n,
            n == pop@.len(),
            pop@ == old(pop)@,
            pop_wf(old(pop)@),
            0 <= dt_ms <= 1000,
            out@ == spec_lifetime(pop@.take(i as int), dt_ms as int),
            out@.len() <= i as int,
            pop_wf(out@),
        decreases n - i,
    {
        proof {
            assert(pop@.take(i as int + 1).drop_last() =~= pop@.take(i as int));
            assert(entity_ok(pop@[i as int]) && pos_strict(pop@[i as int]));
        }
        let e = pop[i];
        match e.lifetime {
            Some(l) => {
                let left = l.remaining - dt_ms;
                if left > 0 {
                    let e2 = Entity { lifetime: Some(Lifetime { remaining: left }), ..e };
                    out.push(e2);
                }
            },
            None => {
                out.push(e);
            },
        }
        i += 1;
    }
    proof {
        assert(pop@.take(n as int) =~= pop@);
    }
    *pop = out;
}

/// Smallest raw draw that makes an entity jitter (`r/32768 > 0.9`).
pub const GATE_JITTER: u16 = 29492;

/// A raw draw scaled to a velocity nudge in `[-1, 1]` world units per second,
/// held in milli-units: `(r - 16384) * 1000 / 16384`, truncating toward zero.
pub open spec fn spec_nudge(r: u16) -> int {
    spec_div_trunc((r - 16384) * 1000, 16384)
}

/// Scale a raw draw to a jitter nudge.
fn nudge_from_raw(r: u16) -> (v: i64)
    requires
        r < 32768,
    ensures
        v == spec_nudge(r),
        -NUDGE_LIMIT <= v <= NUDGE_LIMIT,
{
    proof {
        lemma_div_trunc_bound((r - 16384) * 1000, 16384, 16_384_000);
    }
    if r >= 16384 {
        ((r - 16384) as i64 * 1000) / 16384
    } else {
        -(((16384 - r) as i64 * 1000) / 16384)
    }
}

/// The jitter stage on one entity: one gate draw; when it passes, one draw
/// per axis nudges the velocity.
pub open spec fn spec_jitter_entity(e: Entity, st: u32) -> (Entity, u32) {
    let st1 = lcg_step(st);
    if raw_of(st1) >= GATE_JITTER {
        let st2 = lcg_step(st1);
        let st3 = lcg_step(st2);
        (
            Entity {
                velocity: Velocity {
                    vx: (e.velocity.vx + spec_nudge(raw_of(st2))) as i64,
                    vy: (e.velocity.vy + spec_nudge(raw_of(st3))) as i64,
                },
                ..e
            },
            st3,
        )
    } else {
        (e, st1)
    }
}

/// The first `i` entities after the jitter stage, walked in order with a
/// generator freshly seeded by the frame index.
pub open spec fn spec_jitter_upto(s: Seq<Entity>, seed: u32, i: int) -> (Seq<Entity>, u32)
    decreases i,
{
    if i <= 0 {
        (Seq::empty(), seed)
    } else {
        let (pre, st) = spec_jitter_upto(s, seed, i - 1);
        let (e, st2) = spec_jitter_entity(s[i - 1], st);
        (pre.push(e), st2)
    }
}

/// The jitter stage over the population: it runs every 20th frame with a
/// local generator seeded by the frame index, so it too is reproducible.
pub open spec fn spec_jitter(s: Seq<Entity>, frame: u32) -> Seq<Entity> {
    if frame % 20 == 0 {
        spec_jitter_upto(s, frame, s.len() as int).0
    } else {
        s
    }
}

/// Jitter: every 20th frame each entity independently has a one-in-ten
/// chance of a random velocity nudge of up to one unit on each axis.
pub fn ai_behavior_system(pop: &mut Vec<Entity>, frame: u32)
    requires
        pop_damped(old(pop)@),
    ensures
        final(pop)@ == spec_jitter(old(pop)@, frame),
        final(pop)@.len() == old(pop)@.len(),
        pop_wf(final(pop)@),
{
    if frame % 20 != 0 {
        return ;
    }
    let mut rng = SimpleRng::new(frame);
    let n = pop.len();
    let mut i: usize = 0;
    while i < n
        invariant
            i <= n,
            n == old(pop)@.len(),
            pop@.len() == n,
            pop_damped(old(pop)@),
            (pop@.take(i as int), rng.seed) == spec_jitter_upto(old(pop)@, frame, i as int),
            forall|j: int|
                0 <= j < i as int ==> entity_ok(#[trigger] pop@[j]) && pos_strict(pop@[j]),
            forall|j: int| i as int <= j < n as int ==> #[trigger] pop@[j] == old(pop)@[j],
        decreases n - i,
    {
        let ghost st0 = rng.seed;
        proof {
            assert(entity_ok(old(pop)@[i as int]) && pos_strict(old(pop)@[i as int]));
        }
        let e = pop[i];
        let gate = rng.next_raw();
        if gate >= GATE_JITTER {
            let r1 = rng.next_raw();
            let r2 = rng.next_raw();
            let nx = nudge_from_raw(r1);
            let ny = nudge_from_raw(r2);
            let e2 = Entity {
                velocity: Velocity { vx: e.velocity.vx + nx, vy: e.velocity.vy + ny },
                ..e
            };
            pop[i] = e2;
            proof {
                assert((e2, rng.seed) == spec_jitter_entity(old(pop)@[i as int], st0));
            }
        } else {
            proof {
                assert((e, rng.seed) == spec_jitter_entity(old(pop)@[i as int], st0));
            }
        }
        proof {
            assert(pop@.take(i as int + 1) =~= pop@.take(i as int).push(pop@[i as int]));
            assert(pop@.take(i as int) =~= spec_jitter_upto(old(pop)@, frame, i as int).0);
        }
        i += 1;
    }
    proof {
        assert(pop@.take(n as int) =~= pop@);
    }
}

/// Damage dealt to an armored or unarmored target: each ten points of armor
/// absorb one point, the result truncates toward zero, and a landed attack
/// always deals at least one point.
pub open spec fn spec_damage_dealt(amount: u16, armor: Option<Armor>) -> u16 {
    match armor {
        Some(a) => {
            if 10 * amount < a.value + 10 {
                1u16
            } else {
                ((10 * amount - a.value) / 10) as u16
            }
        },
        None => amount,
    }
}

/// Compute the damage an attack deals.
pub fn damage_dealt(amount: u16, armor: Option<Armor>) -> (d: u16)
    ensures
        d == spec_damage_dealt(amount, armor),
{
    match armor {
        Some(a) => {
            let ten: u32 = 10 * amount as u32;
            if ten < a.value as u32 + 10 {
                1
            } else {
                proof {
                    vstd::arithmetic::div_mod::lemma_div_is_ordered(
                        ten - a.value as int,
                        ten as int,
                        10,
                    );
                    vstd::arithmetic::div_mod::lemma_div_by_multiple(amount as int, 10);
                    vstd::arithmetic::mul::lemma_mul_is_commutative(amount as int, 10);
                }
                ((ten - a.value as u32) / 10) as u16
            }
        },
        None => amount,
    }
}

/// The health write one ready attacker queues: the target's handle and its
/// health after the hit, floored at zero, computed against the population as
/// it stood when the combat tick began.
pub open spec fn spec_attack_update(s: Seq<Entity>, e: Entity) -> Seq<(u32, u16)> {
    match e.attack {
        Some(k) => {
            if k.cooldown.current == 0 {
                match spec_find(s, k.target.entity_id) {
                    Some(j) => {
                        let dealt = spec_damage_dealt(k.damage.amount, s[j].armor);
                        let nh = if s[j].health.current > dealt {
                            (s[j].health.current - dealt) as u16
                        } else {
                            0u16
                        };
                        seq![(k.target.entity_id, nh)]
                    },
                    None => Seq::empty(),
                }
            } else {
                Seq::empty()
            }
        },
        None => Seq::empty(),
    }
}

/// The health writes queued by the first `i` entities, in order.
pub open spec fn spec_updates(s: Seq<Entity>, i: int) -> Seq<(u32, u16)>
    decreases i,
{
    if i <= 0 {
        Seq::empty()
    } else {
        spec_updates(s, i - 1) + spec_attack_update(s, s[i - 1])
    }
}

/// Apply one queued health write; a dangling handle is a no-op.
pub open spec fn spec_apply_one(s: Seq<Entity>, u: (u32, u16)) -> Seq<Entity> {
    match spec_find(s, u.0) {
        Some(j) => s.update(
            j,
            Entity { health: Health { current: u.1, max: s[j].health.max }, ..s[j] },
        ),
        None => s,
    }
}

/// Apply the queued health writes in order; a later write to the same target
/// overwrites an earlier one.
pub open spec fn spec_apply(s: Seq<Entity>, ups: Seq<(u32, u16)>) -> Seq<Entity>
    decreases ups.len(),
{
    if ups.len() == 0 {
        s
    } else {
        spec_apply_one(spec_apply(s, ups.drop_last()), ups.last())
    }
}

/// The cooldown reset on one entity: every attacker that was ready this tick
/// starts its cooldown afresh.
pub open spec fn spec_reset_entity(e: Entity) -> Entity {
    match e.attack {
        Some(k) => {
            if k.cooldown.current == 0 {
                Entity {
                    attack: Some(
                        AttackKit {
                            cooldown: Cooldown { current: k.cooldown.max, max: k.cooldown.max },
                            ..k
                        },
                    ),
                    ..e
                }
            } else {
                e
            }
        },
        None => e,
    }
}

/// The combat stage over the population: every 5th frame, each ready attacker
/// with a live target queues a health write against the pre-tick population;
/// all writes land before any cooldown resets, so no attack reads a health
/// value written in the same tick.
pub open spec fn spec_combat(s: Seq<Entity>, frame: u32) -> Seq<Entity> {
    if frame % 5 == 0 {
        spec_apply(s, spec_updates(s, s.len() as int)).map_values(
            |e: Entity| spec_reset_entity(e),
        )
    } else {
        s
    }
}

/// Combat: collect every ready attack against the tick's opening state, then
/// land all the health writes, then reset the spent cooldowns.
pub fn combat_system(pop: &mut Vec<Entity>, frame: u32)
    requires
        pop_wf(old(pop)@),
    ensures
        final(pop)@ == spec_combat(old(pop)@, frame),
        final(pop)@.len() == old(pop)@.len(),
        pop_wf(final(pop)@),
{
    if frame % 5 != 0 {
        return ;
    }
    let ghost orig = pop@;
    let n = pop.len();

    let mut ups: Vec<(u32, u16)> = Vec::new();
    let mut i: usize = 0;
    while i < n
        invariant
            i <= n,
            n == pop@.len(),
            pop@ == orig,
            pop_wf(orig),
            ups@ == spec_updates(orig, i as int),
            forall|k: int|
                0 <= k < ups@.len() ==> match spec_find(orig, (#[trigger] ups@[k]).0) {
                    Some(j) => ups@[k].1 <= orig[j].health.max,
                    None => false,
                },
        decreases n - i,
    {
        let e = pop[i];
        match e.attack {
            Some(k) => {
                if k.cooldown.current == 0 {
                    match find_entity(pop, k.target.entity_id) {
                        Some(j) => {
                            let t = pop[j];
                            let dealt = damage_dealt(k.damage.amount, t.armor);
                            let nh = if t.health.current > dealt {
                                t.health.current - dealt
                            } else {
                                0
                            };
                            ups.push((k.target.entity_id, nh));
                            proof {
                                assert(ups@ =~= spec_updates(orig, i as int) + spec_attack_update(
                                    orig,
                                    orig[i as int],
                                ));
                            }
                        },
                        None => {
                            proof {
                                assert(ups@ =~= spec_updates(orig, i as int) + spec_attack_update(
                                    orig,
                                    orig[i as int],
                                ));
                            }
                        },
                    }
                } else {
                    proof {
                        assert(ups@ =~= spec_updates(orig, i as int) + spec_attack_update(
                            orig,
                            orig[i as int],
                        ));
                    }
                }
            },
            None => {
                proof {
                    assert(ups@ =~= spec_updates(orig, i as int) + spec_attack_update(
                        orig,
                        orig[i as int],
                    ));
                }
            },
        }
        i += 1;
    }

    let m = ups.len();
    let mut k: usize = 0;
    while k < m
        invariant
            k <= m,
            m == ups@.len(),
            n == pop@.len(),
            pop@.len() == orig.len(),
            pop_wf(orig),
            pop_wf(pop@),
            pop@ == spec_apply(orig, ups@.take(k as int)),
            forall|j: int| 0 <= j < n as int ==> (#[trigger] pop@[j]).id == orig[j].id,
            forall|j: int|
                0 <= j < n as int ==> (#[trigger] pop@[j]).health.max == orig[j].health.max,
            forall|q: int|
                0 <= q < ups@.len() ==> match spec_find(orig, (#[trigger] ups@[q]).0) {
                    Some(j) => ups@[q].1 <= orig[j].health.max,
                    None => false,
                },
        decreases m - k,
    {
        let (id, nh) = ups[k];
        proof {
            assert(ups@.take(k as int + 1).drop_last() =~= ups@.take(k as int));
            lemma_find_from_same_ids(pop@, orig, id, 0);
        }
        match find_entity(pop, id) {
            Some(j) => {
                let e = pop[j];
                proof {
                    assert(entity_ok(pop@[j as int]) && pos_strict(pop@[j as int]));
                }
                let e2 = Entity { health: Health { current: nh, max: e.health.max }, ..e };
                pop[j] = e2;
            },
            None => {},
        }
        k += 1;
    }
    proof {
        assert(ups@.take(m as int) =~= ups@);
    }

    let ghost applied = pop@;
    let mut i: usize = 0;
    while i < n
        invariant
            i <= n,
            n == pop@.len(),
            applied.len() == n,
            pop_wf(applied),
            forall|j: int|
                0 <= j < i as int ==> #[trigger] pop@[j] == spec_reset_entity(applied[j]),
            forall|j: int|
                0 <= j < i as int ==> entity_ok(#[trigger] pop@[j]) && pos_strict(pop@[j]),
            forall|j: int| i as int <= j < n as int ==> #[trigger] pop@[j] == applied[j],
        decreases n - i,
    {
        let e = pop[i];
        proof {
            assert(entity_ok(applied[i as int]) && pos_strict(applied[i as int]));
        }
        match e.attack {
            Some(kit) => {
                if kit.cooldown.current == 0 {
                    let e2 = Entity {
                        attack: Some(
                            AttackKit {
                                cooldown: Cooldown {
                                    current: kit.cooldown.max,
                                    max: kit.cooldown.max,
                                },
                                ..kit
                            },
                        ),
                        ..e
                    };
                    pop[i] = e2;
                }
            },
            None => {},
        }
        i += 1;
    }
    proof {
        assert(pop@ =~= applied.map_values(|e: Entity| spec_reset_entity(e)));
    }
}

/// One whole frame: the eleven stages in their fixed, significant order.
pub open spec fn spec_step(s: Seq<Entity>, frame: u32, dt: u32) -> Seq<Entity> {
    let s1 = s.map_values(|e: Entity| spec_move_entity(e, dt as int));
    let s2 = s1.map_values(|e: Entity| spec_rotate_entity(e));
    let s3 = s2.map_values(|e: Entity| spec_bound_entity(e));
    let s4 = spec_regen(s3, frame);
    let s5 = s4.map_values(|e: Entity| spec_cooldown_entity(e, dt));
    let s6 = spec_combat(s5, frame);
    let s7 = spec_death(s6);
    let s8 = s7.map_values(|e: Entity| spec_status_entity(e));
    let s9 = spec_lifetime(s8, dt as int);
    let s10 = s9.map_values(|e: Entity| spec_damp_entity(e));
    spec_jitter(s10, frame)
}

/// Apply the full pipeline once. Besides pinning the result, the contract
/// carries two standing laws: after any frame, every entity's health lies
/// between zero and its maximum, and no entity is ever created mid-run — the
/// population can only shrink.
pub fn step(pop: &mut Vec<Entity>, frame: u32, dt_ms: u32)
    requires
        pop_wf(old(pop)@),
        dt_ms <= 1000,
    ensures
        final(pop)@ == spec_step(old(pop)@, frame, dt_ms),
        final(pop)@.len() <= old(pop)@.len(),
        pop_wf(final(pop)@),
        forall|i: int|
            0 <= i < final(pop)@.len() ==> (#[trigger] final(pop)@[i]).health.current
                <= final(pop)@[i].health.max,
{
    movement_system(pop, dt_ms as i64);
    rotation_system(pop);
    boundary_system(pop);
    health_regen_system(pop, frame);
    cooldown_system(pop, dt_ms);
    combat_system(pop, frame);
    death_system(pop);
    status_effect_system(pop);
    lifetime_system(pop, dt_ms as i64);
    velocity_damping_system(pop);
    ai_behavior_system(pop, frame);
}

} // verus!
