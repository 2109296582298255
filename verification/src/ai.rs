use vstd::prelude::*;

use crate::comp::{Cooldown, Entity, Health, Target};
use crate::events::{damage_of, AttackEvent, AttackType};
use crate::movement::chebyshev_close;
use crate::random::RandomSource;
use crate::world::{is_live, valid_handle, World};

verus! {

/// Whether a target component still refers to a living entity: the
/// reference is set, its generation is current, and the referenced slot
/// holds positive health.
pub open spec fn live_target(
    generations: Seq<u32>,
    healths: Seq<Option<Health>>,
    t: Target,
) -> bool {
    &&& t.0 matches Some(e)
    &&& valid_handle(generations, t.0->Some_0)
    &&& is_live(healths, t.0->Some_0.index as int)
}

/// Whether `e` is an eligible fresh target for the actor in slot
/// `self_index`: a valid handle to some other slot that is still alive.
pub open spec fn is_candidate(
    generations: Seq<u32>,
    healths: Seq<Option<Health>>,
    self_index: int,
    e: Entity,
) -> bool {
    &&& valid_handle(generations, e)
    &&& e.index != self_index
    &&& is_live(healths, e.index as int)
}

/// Whether the reference attack goes through, stated over the component
/// tables: the actor is a valid, living, positioned entity whose target
/// reference is set and resolves to a positioned slot within king-move
/// range. Target liveness is deliberately not checked here; a blow against
/// a dead target is applied as a no-op by the attack system.
pub open spec fn attack_ready_at(
    generations: Seq<u32>,
    healths: Seq<Option<Health>>,
    targets: Seq<Option<Target>>,
    positions: Seq<Option<crate::comp::Position>>,
    monster: Entity,
) -> bool {
    &&& valid_handle(generations, monster)
    &&& monster.index < positions.len()
    &&& positions[monster.index as int] is Some
    &&& monster.index < healths.len()
    &&& is_live(healths, monster.index as int)
    &&& monster.index < targets.len()
    &&& targets[monster.index as int] matches Some(t)
    &&& targets[monster.index as int]->Some_0.0 matches Some(e)
    &&& valid_handle(generations, targets[monster.index as int]->Some_0.0->Some_0)
    &&& targets[monster.index as int]->Some_0.0->Some_0.index < positions.len()
    &&& positions[targets[monster.index as int]->Some_0.0->Some_0.index as int] is Some
    &&& chebyshev_close(
        positions[monster.index as int]->Some_0,
        positions[targets[monster.index as int]->Some_0.0->Some_0.index as int]->Some_0,
    )
}

/// `attack_ready_at` read off a whole world value.
pub open spec fn attack_ready(w: World, monster: Entity) -> bool {
    attack_ready_at(w.generations@, w.healths@, w.targets@, w.positions@, monster)
}

/// The target the reference attack hits: the entity the actor's target
/// component refers to.
pub open spec fn attack_victim(w: World, monster: Entity) -> Entity {
    w.targets@[monster.index as int]->Some_0.0->Some_0
}

/// What any strategy must have re-validated before returning a damage
/// event: the actor is positioned, and the event's target resolves to a
/// positioned slot adjacent to the actor.
pub open spec fn event_admissible(w: World, monster: Entity, ev: AttackEvent) -> bool {
    &&& monster.index < w.positions@.len()
    &&& w.positions@[monster.index as int] is Some
    &&& valid_handle(w.generations@, ev.target)
    &&& ev.target.index < w.positions@.len()
    &&& w.positions@[ev.target.index as int] is Some
    &&& chebyshev_close(
        w.positions@[monster.index as int]->Some_0,
        w.positions@[ev.target.index as int]->Some_0,
    )
}

/// The capability contract every AI strategy offers: target selection and
/// attack resolution against a read view of the world. The trait-level
/// clauses bind every strategy; the provided bodies are the reference
/// behaviour.
pub trait MonsterAI {
    /// Select or refresh the acting entity's target. A target that still
    /// refers to a living entity is never overridden; an absent or stale
    /// one is replaced by some other living entity, chosen among all of
    /// them, or left as it was when no such entity exists. The decision
    /// reads generations and healths only, never another entity's target,
    /// so concurrent per-entity selection is order-insensitive.
    fn target(&self, monster: Entity, tgt: &mut Target, world: &World, rng: &mut RandomSource)
        requires
            world.wf(),
        ensures
            live_target(world.generations@, world.healths@, *old(tgt)) ==> *final(tgt) == *old(
                tgt,
            ),
            !live_target(world.generations@, world.healths@, *old(tgt)) && !(exists|e: Entity|
                is_candidate(world.generations@, world.healths@, monster.index as int, e))
                ==> *final(tgt) == *old(tgt),
            !live_target(world.generations@, world.healths@, *old(tgt)) && (exists|e: Entity|
                is_candidate(world.generations@, world.healths@, monster.index as int, e)) ==> {
                &&& final(tgt).0 matches Some(c)
                &&& is_candidate(
                    world.generations@,
                    world.healths@,
                    monster.index as int,
                    final(tgt).0->Some_0,
                )
            },
    {
        let live = match tgt.0 {
            Some(e) => {
                if world.valid(e) {
                    match world.healths.get_copy(e.index) {
                        Some(h) => h.0 > 0,
                        None => false,
                    }
                } else {
                    false
                }
            },
            None => false,
        };
        if !live {
            let n = world.len();
            let mut candidates: Vec<Entity> = Vec::new();
            let mut j: usize = 0;
            while j < n
                invariant
                    world.wf(),
                    n == world.num_entities(),
                    j <= n,
                    forall|k: int|
                        0 <= k < candidates@.len() ==> is_candidate(
                            world.generations@,
                            world.healths@,
                            monster.index as int,
                            candidates@[k],
                        ),
                    candidates@.len() == 0 ==> forall|jj: int|
                        0 <= jj < j ==> !(jj != monster.index as int && is_live(
                            world.healths@,
                            jj,
                        )),
                decreases n - j,
            {
                if j != monster.index {
                    match world.healths.get_copy(j) {
                        Some(h) => {
                            if h.0 > 0 {
                                candidates.push(
                                    Entity { index: j, generation: world.generations[j] },
                                );
                            }
                        },
                        None => {},
                    }
                }
                j = j + 1;
            }
            if candidates.len() > 0 {
                let pick = rng.below(candidates.len());
                let chosen = candidates[pick];
                *tgt = Target(Some(chosen));
            } else {
                proof {
                    assert forall|e: Entity|
                        !is_candidate(
                            world.generations@,
                            world.healths@,
                            monster.index as int,
                            e,
                        ) by {
                        if valid_handle(world.generations@, e) {
                            assert(!(e.index as int != monster.index as int && is_live(
                                world.healths@,
                                e.index as int,
                            )));
                        }
                    }
                }
            }
        }
    }

    /// Resolve one attack attempt for `monster`. Fails, returning nothing,
    /// when the actor lacks a position or health, its target is unset or
    /// stale, the target lacks a position, or the target is out of
    /// king-move range; otherwise returns the fixed ten-tick recovery
    /// cooldown and one damage event with a uniformly drawn amount below
    /// ten.
    fn attack(&self, monster: Entity, world: &World, rng: &mut RandomSource) -> (r: Option<
        (Cooldown, Vec<AttackEvent>),
    >)
        requires
            world.wf(),
        ensures
            r matches Some(pair) ==> {
                &&& is_live(world.healths@, monster.index as int)
                &&& forall|k: int|
                    0 <= k < pair.1@.len() ==> event_admissible(*world, monster, pair.1@[k])
            },
        default_ensures
            r is Some <==> attack_ready(*world, monster),
            r matches Some(pair) ==> {
                &&& pair.0 == Cooldown(10u32)
                &&& pair.1@.len() == 1
                &&& pair.1@[0].target == attack_victim(*world, monster)
                &&& damage_of(pair.1@[0]) < 10
            },
    {
        if !world.valid(monster) {
            return None;
        }
        let position = match world.positions.get_copy(monster.index) {
            Some(p) => p,
            None => { return None; },
        };
        let monster_health = match world.healths.get_copy(monster.index) {
            Some(h) => h.0,
            None => { return None; },
        };
        if monster_health == 0 {
            return None;
        }
        let victim = match world.targets.get_copy(monster.index) {
            Some(Target(Some(v))) => v,
            _ => { return None; },
        };
        if !world.valid(victim) {
            return None;
        }
        let victim_position = match world.positions.get_copy(victim.index) {
            Some(p) => p,
            None => { return None; },
        };
        let dx: i64 = position.0 as i64 - victim_position.0 as i64;
        let dy: i64 = position.1 as i64 - victim_position.1 as i64;
        if dx > 1 || dx < -1 || dy > 1 || dy < -1 {
            return None;
        }
        let damage_done = rng.below(10) as u32;
        Some((Cooldown(10), vec![AttackEvent { target: victim, attack_type: AttackType::Damage(damage_done) }]))
    }
}

/// The reference strategy: the stock targeting and attack behaviour that
/// the simulation's monsters run, exactly as the trait's provided bodies
/// define it.
#[derive(Clone, Copy, Debug)]
pub struct StandardAI;

impl MonsterAI for StandardAI {

}

/// The component that marks an entity as AI-driven and owns its strategy.
/// Immutable after creation; the strategy itself keeps no state across
/// calls and reads the world fresh on every invocation.
#[derive(Clone, Copy, Debug)]
pub struct AIControl(pub StandardAI);

impl AIControl {
    /// Forward target selection to the owned strategy.
    pub fn target(&self, monster: Entity, tgt: &mut Target, world: &World, rng: &mut RandomSource)
        requires
            world.wf(),
        ensures
            live_target(world.generations@, world.healths@, *old(tgt)) ==> *final(tgt) == *old(
                tgt,
            ),
            !live_target(world.generations@, world.healths@, *old(tgt)) && !(exists|e: Entity|
                is_candidate(world.generations@, world.healths@, monster.index as int, e))
                ==> *final(tgt) == *old(tgt),
            !live_target(world.generations@, world.healths@, *old(tgt)) && (exists|e: Entity|
                is_candidate(world.generations@, world.healths@, monster.index as int, e)) ==> {
                &&& final(tgt).0 matches Some(c)
                &&& is_candidate(
                    world.generations@,
                    world.healths@,
                    monster.index as int,
                    final(tgt).0->Some_0,
                )
            },
    {
        self.0.target(monster, tgt, world, rng)
    }

    /// Forward one attack attempt to the owned strategy.
    pub fn attack(&self, monster: Entity, world: &World, rng: &mut RandomSource) -> (r: Option<
        (Cooldown, Vec<AttackEvent>),
    >)
        requires
            world.wf(),
        ensures
            r is Some <==> attack_ready(*world, monster),
            r matches Some(pair) ==> {
                &&& pair.0 == Cooldown(10u32)
                &&& pair.1@.len() == 1
                &&& pair.1@[0].target == attack_victim(*world, monster)
                &&& damage_of(pair.1@[0]) < 10
                &&& forall|k: int|
                    0 <= k < pair.1@.len() ==> event_admissible(*world, monster, pair.1@[k])
            },
    {
        self.0.attack(monster, world, rng)
    }
}

} // verus!
