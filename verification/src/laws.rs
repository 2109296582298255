use vstd::prelude::*;

use crate::ai::{is_candidate, live_target};
use crate::attack::{
    apply_reports, attack_fired, healths_at_turn, lemma_attack_health_monotone, report_from,
    reports_before,
};
use crate::comp::Entity;
use crate::dispatcher::{attack_rel, movement_rel, targeting_rel};
use crate::events::AttackReport;
use crate::movement::{
    lemma_move_prefix_presence, lemma_move_prefix_skip, move_prefix, move_ready,
};
use crate::targeting::targeting_turn_ok;
use crate::world::{health_points, is_live, valid_handle, World};

verus! {

/// Law: targeting never overrides a target that still refers to a living
/// entity — a stale or absent one is the only thing it replaces.
pub proof fn lemma_live_target_kept(w0: World, w1: World, i: int)
    requires
        targeting_rel(w0, w1),
        0 <= i < w0.num_entities(),
        w0.targets@[i] matches Some(t),
        live_target(w0.generations@, w0.healths@, w0.targets@[i]->Some_0),
    ensures
        w1.targets@[i] == w0.targets@[i],
{
    assert(targeting_turn_ok(w0, w1.targets@[i], i));
}

/// Whether slot `s`'s target component fails to resolve to a positioned
/// entity: it is absent, unset, stale, or refers to a slot without a
/// position. Such a target moves and attacks nobody.
pub open spec fn target_unresolved(w0: World, s: int) -> bool {
    match w0.targets@[s] {
        Some(t) => match t.0 {
            Some(e) => {
                ||| !valid_handle(w0.generations@, e)
                ||| e.index >= w0.positions@.len()
                ||| w0.positions@[e.index as int] is None
            },
            None => true,
        },
        None => true,
    }
}

/// Law: a full tick — targeting, then movement, then attack — over a
/// population whose only living entity is `s` leaves every health exactly
/// as it was, leaves `s`'s position and target untouched, and files no
/// attack report. The one proviso is that `s`'s own target does not
/// resolve to a positioned slot: a survivor still holding a positioned
/// stale target would march toward the corpse, which is the engine's
/// documented behaviour, not a failure of the tick.
pub proof fn lemma_single_living_tick(
    w0: World,
    w1: World,
    w2: World,
    w3: World,
    rs: Seq<AttackReport>,
    s: int,
)
    requires
        w0.wf(),
        targeting_rel(w0, w1),
        movement_rel(w1, w2),
        attack_rel(w2, w3, rs),
        0 <= s < w0.num_entities(),
        is_live(w0.healths@, s),
        forall|j: int| 0 <= j < w0.num_entities() && j != s ==> !is_live(w0.healths@, j),
        target_unresolved(w0, s),
    ensures
        w3.healths@ == w0.healths@,
        w3.positions@[s] == w0.positions@[s],
        w1.targets@[s] == w0.targets@[s],
        rs.len() == 0,
{
    let n = w0.num_entities() as int;
    // Targeting leaves every slot's target unchanged: the dead do not act,
    // and the lone survivor finds no candidate.
    assert forall|i: int| 0 <= i < n implies w1.targets@[i] == w0.targets@[i] by {
        assert(targeting_turn_ok(w0, w1.targets@[i], i));
        if i != s {
            assert(!is_live(w0.healths@, i));
        } else {
            if !(w0.targets@[s] matches Some(t) && live_target(
                w0.generations@,
                w0.healths@,
                w0.targets@[s]->Some_0,
            )) {
                assert forall|e: Entity|
                    !is_candidate(w0.generations@, w0.healths@, s, e) by {
                    if is_candidate(w0.generations@, w0.healths@, s, e) {
                        assert(is_live(w0.healths@, e.index as int));
                        assert(e.index as int != s);
                    }
                }
            }
        }
    }
    assert(w1.targets@ =~= w0.targets@);
    // Movement never touches the survivor: its target does not resolve.
    lemma_move_prefix_presence(w1.generations@, w1.targets@, w1.positions@, s);
    assert(!move_ready(
        w1.generations@,
        w1.targets@,
        move_prefix(w1.generations@, w1.targets@, w1.positions@, s),
        s,
    ));
    lemma_move_prefix_skip(w1.generations@, w1.targets@, w1.positions@, n, s);
    assert(w2.positions@[s] == w0.positions@[s]);
    // Attack files no report: a dead actor cannot fire, and the survivor's
    // target does not resolve to a positioned slot.
    lemma_move_prefix_presence(w1.generations@, w1.targets@, w1.positions@, n);
    if rs.len() > 0 {
        assert(report_from(w2, rs, 0));
        let a = rs[0].actor.index as int;
        assert(attack_fired(w2, rs, a));
        lemma_attack_health_monotone(w2.healths@, reports_before(rs, a));
        assert(health_points(healths_at_turn(w2.healths@, rs, a)[a]) <= health_points(
            w2.healths@[a],
        ));
        assert(is_live(w2.healths@, a));
        assert(a == s);
        assert(false);
    }
    assert(rs.len() == 0);
    assert(w3.healths@ == apply_reports(w2.healths@, rs));
    assert(w3.healths@ =~= w0.healths@);
}

/// Law: an entity facing a candidate pool of zero other living entities
/// keeps its target unset through the tick and no attack happens. Every
/// later tick sees the same world again, so the target stays unset for
/// good until another living entity appears.
pub proof fn lemma_no_candidates_tick(
    w0: World,
    w1: World,
    w2: World,
    w3: World,
    rs: Seq<AttackReport>,
    s: int,
)
    requires
        w0.wf(),
        targeting_rel(w0, w1),
        movement_rel(w1, w2),
        attack_rel(w2, w3, rs),
        0 <= s < w0.num_entities(),
        is_live(w0.healths@, s),
        forall|j: int| 0 <= j < w0.num_entities() && j != s ==> !is_live(w0.healths@, j),
        w0.targets@[s] matches Some(t),
        w0.targets@[s]->Some_0.0 is None,
    ensures
        w1.targets@[s] == w0.targets@[s],
        w1.targets@[s]->Some_0.0 is None,
        rs.len() == 0,
        w3.healths@ == w0.healths@,
{
    lemma_single_living_tick(w0, w1, w2, w3, rs, s);
}

} // verus!
