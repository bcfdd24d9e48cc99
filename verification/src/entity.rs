//! The simulated combat entities and their attribute records.
//!
//! World coordinates and velocities are fixed-point integers in thousandths of
//! a world unit (the world spans `[0, 1000]` units, so `[0, 1_000_000]`
//! thousandths); angles are milliradians; cooldowns and lifetimes are
//! milliseconds. Every entity carries a position, a velocity and a health
//! record; armor, an attack kit, a status record and a lifetime budget are
//! optional and independently present.

use vstd::prelude::*;

verus! {

/// The world edge in milli-units: positions live in `[0, WORLD_MAX]`.
pub const WORLD_MAX: i64 = 1_000_000;

/// Bound on each velocity component in milli-units per second, kept as an
/// invariant across frames.
pub const VEL_LIMIT: i64 = 100_000;

/// Largest magnitude of one jitter nudge in milli-units per second.
pub const NUDGE_LIMIT: i64 = 1000;

/// Simulated time per frame in milliseconds.
pub const DT_MS: u32 = 16;

/// Position and heading. `rotation` is a heading angle in milliradians.
#[derive(Clone, Copy)]
pub struct Transform2D {
    pub x: i64,
    pub y: i64,
    pub rotation: i64,
}

/// Velocity in milli-units per second.
#[derive(Clone, Copy)]
pub struct Velocity {
    pub vx: i64,
    pub vy: i64,
}

/// Hit points; `current` never exceeds `max`.
#[derive(Clone, Copy)]
pub struct Health {
    pub current: u16,
    pub max: u16,
}

/// Flat damage reduction; each ten points of armor absorb one point of damage.
#[derive(Clone, Copy)]
pub struct Armor {
    pub value: u16,
}

/// Damage dealt per attack.
#[derive(Clone, Copy)]
pub struct Damage {
    pub amount: u16,
}

/// Attack cooldown in milliseconds; reset to `max` after an attack triggers.
#[derive(Clone, Copy)]
pub struct Cooldown {
    pub current: u32,
    pub max: u32,
}

/// Team identifier in `0..=3`.
#[derive(Clone, Copy)]
pub struct Team {
    pub id: u8,
}

/// Handle of the entity under attack; it may dangle or point at the attacker
/// itself, and a dangling handle makes the attack a no-op.
#[derive(Clone, Copy)]
pub struct Target {
    pub entity_id: u32,
}

/// Status flags; a stunned entity stops, a merely slowed one halves speed.
#[derive(Clone, Copy)]
pub struct Status {
    pub stunned: u8,
    pub slowed: u8,
}

/// Remaining time budget in milliseconds; the entity is removed once it runs
/// out, so a stored value never goes negative.
#[derive(Clone, Copy)]
pub struct Lifetime {
    pub remaining: i64,
}

/// The attack-capable bundle: damage dealt, firing cooldown, and the target.
/// The three are attached together or not at all.
#[derive(Clone, Copy)]
pub struct AttackKit {
    pub damage: Damage,
    pub cooldown: Cooldown,
    pub target: Target,
}

/// One simulated combat unit. The handle `id` is assigned at generation and
/// never reused; position, velocity and health are mandatory.
#[derive(Clone, Copy)]
pub struct Entity {
    pub id: u32,
    pub transform: Transform2D,
    pub velocity: Velocity,
    pub health: Health,
    pub armor: Option<Armor>,
    pub attack: Option<AttackKit>,
    pub team: Team,
    pub status: Option<Status>,
    pub lifetime: Option<Lifetime>,
}

/// The invariant every entity keeps at every frame boundary, apart from its
/// position: health within bounds, bounded velocity, a stored lifetime that
/// has not yet run out.
pub open spec fn entity_ok(e: Entity) -> bool {
    &&& e.health.current <= e.health.max
    &&& -VEL_LIMIT <= e.velocity.vx <= VEL_LIMIT
    &&& -VEL_LIMIT <= e.velocity.vy <= VEL_LIMIT
    &&& (e.lifetime is Some ==> e.lifetime->0.remaining >= 0)
}

/// Position inside the world box, as the boundary stage leaves it.
pub open spec fn pos_strict(e: Entity) -> bool {
    &&& 0 <= e.transform.x <= WORLD_MAX
    &&& 0 <= e.transform.y <= WORLD_MAX
}

/// Position at most one movement step outside the world box, as the movement
/// stage can leave it before the boundary stage wraps it back.
pub open spec fn pos_loose(e: Entity) -> bool {
    &&& -VEL_LIMIT <= e.transform.x <= WORLD_MAX + VEL_LIMIT
    &&& -VEL_LIMIT <= e.transform.y <= WORLD_MAX + VEL_LIMIT
}

/// Well-formed population: every entity keeps its invariant and sits inside
/// the world box. This holds at every frame boundary.
pub open spec fn pop_wf(s: Seq<Entity>) -> bool {
    forall|i: int| 0 <= i < s.len() ==> entity_ok(#[trigger] s[i]) && pos_strict(s[i])
}

/// Population between the movement and boundary stages of one frame.
pub open spec fn pop_wf_loose(s: Seq<Entity>) -> bool {
    forall|i: int| 0 <= i < s.len() ==> entity_ok(#[trigger] s[i]) && pos_loose(s[i])
}

/// Index of the first entity carrying `id`, searching from position `i`.
pub open spec fn spec_find_from(s: Seq<Entity>, id: u32, i: int) -> Option<int>
    decreases s.len() - i,
{
    if i < 0 || i >= s.len() {
        None
    } else if s[i].id == id {
        Some(i)
    } else {
        spec_find_from(s, id, i + 1)
    }
}

/// Index of the first entity carrying `id`, if any is present.
pub open spec fn spec_find(s: Seq<Entity>, id: u32) -> Option<int> {
    spec_find_from(s, id, 0)
}

/// Two populations whose entities carry the same handles in the same order
/// resolve every lookup to the same index.
pub proof fn lemma_find_from_same_ids(s1: Seq<Entity>, s2: Seq<Entity>, id: u32, i: int)
    requires
        s1.len() == s2.len(),
        forall|j: int| 0 <= j < s1.len() ==> s1[j].id == #[trigger] s2[j].id,
    ensures
        spec_find_from(s1, id, i) == spec_find_from(s2, id, i),
    decreases s1.len() - i,
{
    if 0 <= i < s1.len() && s1[i].id != id {
        lemma_find_from_same_ids(s1, s2, id, i + 1);
    }
}

/// Look an entity up by its handle; a dangling handle yields `None` rather
/// than a fault.
pub fn find_entity(pop: &Vec<Entity>, id: u32) -> (r: Option<usize>)
    ensures
        match r {
            Some(j) => spec_find(pop@, id) == Some(j as int) && j < pop@.len()
                && pop@[j as int].id == id,
            None => spec_find(pop@, id) is None,
        },
{
    let n = pop.len();
    let mut i: usize = 0;
    while i < n
        invariant
            i <= n,
            n == pop@.len(),
            spec_find(pop@, id) == spec_find_from(pop@, id, i as int),
        decreases n - i,
    {
        if pop[i].id == id {
            return Some(i);
        }
        i += 1;
    }
    None
}

} // verus!
