use vstd::prelude::*;

use crate::ai::{is_candidate, live_target};
use crate::comp::Entity;
use crate::random::RandomSource;
use crate::world::{health_points, World};

verus! {

/// Whether slot `i` is in the targeting join: it owns an AI strategy, a
/// target component and a health component.
pub open spec fn targeting_acting(w: World, i: int) -> bool {
    &&& 0 <= i < w.num_entities()
    &&& w.ais@[i] is Some
    &&& w.targets@[i] is Some
    &&& w.healths@[i] is Some
}

/// What one targeting turn leaves in slot `i`'s target component, as a
/// relation against the pre-tick world: a non-acting or dead entity, and
/// one whose target still refers to a living entity, keep their target
/// untouched; an acting live entity with a stale or absent target gets
/// some other living entity when one exists, and keeps its target
/// otherwise. The choice among candidates is the strategy's (here:
/// uniformly random), so the relation names no particular one.
pub open spec fn targeting_turn_ok(w0: World, new_t: Option<crate::comp::Target>, i: int) -> bool {
    if !targeting_acting(w0, i) || health_points(w0.healths@[i]) == 0 || live_target(
        w0.generations@,
        w0.healths@,
        w0.targets@[i]->Some_0,
    ) {
        new_t == w0.targets@[i]
    } else if exists|e: Entity| is_candidate(w0.generations@, w0.healths@, i, e) {
        &&& new_t matches Some(t)
        &&& t.0 matches Some(c)
        &&& is_candidate(w0.generations@, w0.healths@, i, t.0->Some_0)
    } else {
        new_t == w0.targets@[i]
    }
}

/// The targeting system: each tick, every living AI-driven entity whose
/// target is absent or stale picks a fresh living victim. Candidate
/// collection reads generations and healths only — never another entity's
/// in-flight target — so the per-entity turns are independent and their
/// order does not matter.
pub struct TargetingSystem;

impl TargetingSystem {
    /// Run one targeting tick. Only the target storage changes, and each
    /// slot's new value satisfies the per-turn relation against the
    /// pre-tick world.
    pub fn run(&self, world: &mut World, rng: &mut RandomSource)
        requires
            old(world).wf(),
        ensures
            final(world).wf(),
            final(world).generations@ == old(world).generations@,
            final(world).positions@ == old(world).positions@,
            final(world).healths@ == old(world).healths@,
            final(world).cooldowns@ == old(world).cooldowns@,
            final(world).names@ == old(world).names@,
            final(world).models@ == old(world).models@,
            final(world).players@ == old(world).players@,
            final(world).ais@ == old(world).ais@,
            final(world).threats@ == old(world).threats@,
            final(world).targets@.len() == old(world).targets@.len(),
            forall|i: int|
                0 <= i < old(world).num_entities() ==> targeting_turn_ok(
                    *old(world),
                    final(world).targets@[i],
                    i,
                ),
    {
        let ghost w0 = *old(world);
        let n = world.len();
        let mut i: usize = 0;
        while i < n
            invariant
                world.wf(),
                n == world.num_entities(),
                i <= n,
                world.generations@ == w0.generations@,
                world.positions@ == w0.positions@,
                world.healths@ == w0.healths@,
                world.cooldowns@ == w0.cooldowns@,
                world.names@ == w0.names@,
                world.models@ == w0.models@,
                world.players@ == w0.players@,
                world.ais@ == w0.ais@,
                world.threats@ == w0.threats@,
                world.targets@.len() == w0.targets@.len(),
                forall|j: int| i <= j < n ==> world.targets@[j] == w0.targets@[j],
                forall|j: int| 0 <= j < i ==> targeting_turn_ok(w0, world.targets@[j], j),
            decreases n - i,
        {
            let acting = world.ais.has(i) && world.healths.has(i);
            if acting {
                if let Some(current) = world.targets.get_copy(i) {
                    let health = match world.healths.get_copy(i) {
                        Some(h) => h.0,
                        None => 0,
                    };
                    if health > 0 {
                        let ai = match world.ais.get_copy(i) {
                            Some(a) => a,
                            None => crate::ai::AIControl(crate::ai::StandardAI),
                        };
                        let monster = Entity { index: i, generation: world.generations[i] };
                        let mut chosen = current;
                        ai.target(monster, &mut chosen, world, rng);
                        world.targets.put(i, chosen);
                        proof {
                            let g = w0.generations@;
                            let h = w0.healths@;
                            if !live_target(g, h, current) {
                                if exists|e: Entity| is_candidate(g, h, i as int, e) {
                                    let e = choose|e: Entity| is_candidate(g, h, i as int, e);
                                    assert(is_candidate(
                                        world.generations@,
                                        world.healths@,
                                        monster.index as int,
                                        e,
                                    ));
                                } else {
                                    assert forall|e: Entity|
                                        !is_candidate(
                                            world.generations@,
                                            world.healths@,
                                            monster.index as int,
                                            e,
                                        ) by {
                                        if is_candidate(
                                            world.generations@,
                                            world.healths@,
                                            monster.index as int,
                                            e,
                                        ) {
                                            assert(is_candidate(g, h, i as int, e));
                                        }
                                    }
                                }
                            }
                            assert(targeting_turn_ok(w0, world.targets@[i as int], i as int));
                        }
                    }
                }
            }
            proof {
                assert(targeting_turn_ok(w0, world.targets@[i as int], i as int));
            }
            i = i + 1;
        }
    }
}

} // verus!
