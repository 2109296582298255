use vstd::prelude::*;

use crate::ai::attack_ready_at;
use crate::comp::{Cooldown, Entity, Health};
use crate::events::{AttackEvent, AttackReport, AttackType};
use crate::random::RandomSource;
use crate::world::{health_points, World};

verus! {

/// Remaining cooldown turns of a slot, with an absent component read as
/// zero.
pub open spec fn cooldown_points(c: Option<Cooldown>) -> nat {
    match c {
        Some(cd) => cd.0 as nat,
        None => 0,
    }
}

/// What remains of `pre` hit points after `d` damage: floored at zero,
/// never negative; damage at least equal to the remaining health kills
/// exactly to zero.
pub open spec fn damage_result(pre: u32, d: u32) -> u32 {
    if d >= pre {
        0u32
    } else {
        (pre - d) as u32
    }
}

/// The health table after one report's blow lands: the target's health,
/// where the component exists, drops by the damage floored at zero. A blow
/// against a slot already at zero leaves it at zero: already dead, the
/// event is a no-op.
pub open spec fn apply_report(h: Seq<Option<Health>>, r: AttackReport) -> Seq<Option<Health>> {
    let t = r.target.index as int;
    if 0 <= t < h.len() && h[t] is Some {
        h.update(t, Some(Health(damage_result(h[t]->Some_0.0, r.damage))))
    } else {
        h
    }
}

/// The health table after a sequence of blows lands in order.
pub open spec fn apply_reports(h: Seq<Option<Health>>, rs: Seq<AttackReport>) -> Seq<
    Option<Health>,
>
    decreases rs.len(),
{
    if rs.len() == 0 {
        h
    } else {
        apply_report(apply_reports(h, rs.drop_last()), rs.last())
    }
}

/// Whether one report records its blow truthfully against the health
/// table `h` as it stood the moment the blow landed.
pub open spec fn report_matches(h: Seq<Option<Health>>, r: AttackReport) -> bool {
    &&& r.damage < 10
    &&& r.actor.index < h.len()
    &&& h[r.actor.index as int] is Some
    &&& r.actor_health == h[r.actor.index as int]->Some_0.0
    &&& r.actor_health > 0
    &&& r.target.index < h.len()
    &&& h[r.target.index as int] is Some
    &&& r.pre_health == h[r.target.index as int]->Some_0.0
    &&& r.post_health == damage_result(r.pre_health, r.damage)
    &&& r.lethal == (r.pre_health > 0 && r.damage >= r.pre_health)
}

/// Whether every report in the sequence records its blow truthfully, each
/// against the table left by the blows before it.
pub open spec fn reports_wf(h: Seq<Option<Health>>, rs: Seq<AttackReport>) -> bool
    decreases rs.len(),
{
    rs.len() == 0 || {
        &&& reports_wf(h, rs.drop_last())
        &&& report_matches(apply_reports(h, rs.drop_last()), rs.last())
    }
}

/// The reports whose actor's slot comes before `i`: the blows that have
/// already landed when slot `i` takes its turn.
pub open spec fn reports_before(rs: Seq<AttackReport>, i: int) -> Seq<AttackReport>
    decreases rs.len(),
{
    if rs.len() == 0 {
        Seq::empty()
    } else if rs.last().actor.index < i {
        reports_before(rs.drop_last(), i).push(rs.last())
    } else {
        reports_before(rs.drop_last(), i)
    }
}

/// The health table the entity in slot `i` sees on its turn: the starting
/// table with every earlier actor's blow already applied.
pub open spec fn healths_at_turn(h0: Seq<Option<Health>>, rs: Seq<AttackReport>, i: int) -> Seq<
    Option<Health>,
> {
    apply_reports(h0, reports_before(rs, i))
}

/// The entity handle living in slot `i` of the pre-tick world.
pub open spec fn entity_at(w0: World, i: int) -> Entity {
    Entity { index: i as usize, generation: w0.generations@[i] }
}

/// The entity that slot `i`'s target component refers to.
pub open spec fn victim_of(w0: World, i: int) -> Entity {
    w0.targets@[i]->Some_0.0->Some_0
}

/// Whether the victim of slot `i` owns a health component; components are
/// neither added nor removed during a tick, so this is a pre-tick fact.
pub open spec fn victim_health_present(w0: World, i: int) -> bool {
    &&& victim_of(w0, i).index < w0.healths@.len()
    &&& w0.healths@[victim_of(w0, i).index as int] is Some
}

/// Whether the entity in slot `i` lands an attack this tick: it is in the
/// attack join (cooldown and name present), its cooldown is ready, it is
/// AI-driven, and — on the health table as it stands at its turn, earlier
/// blows included — it is alive, positioned, and holds a positioned target
/// within king-move range. Evaluation is sequential in slot order: a kill
/// by an earlier actor is visible here, so the dead never strike back
/// within the same tick.
pub open spec fn attack_fired(w0: World, rs: Seq<AttackReport>, i: int) -> bool {
    &&& 0 <= i < w0.num_entities()
    &&& w0.cooldowns@[i] is Some
    &&& w0.names@[i] is Some
    &&& cooldown_points(w0.cooldowns@[i]) == 0
    &&& w0.ais@[i] is Some
    &&& attack_ready_at(
        w0.generations@,
        healths_at_turn(w0.healths@, rs, i),
        w0.targets@,
        w0.positions@,
        entity_at(w0, i),
    )
}

/// What slot `i`'s cooldown component holds after the attack tick: a slot
/// outside the join keeps its value; a positive cooldown counts down by
/// one; an actor that landed an attack adopts the fixed ten-tick recovery;
/// everyone else is left unchanged at zero.
pub open spec fn attack_cooldown_after(w0: World, rs: Seq<AttackReport>, i: int) -> Option<
    Cooldown,
> {
    if !(w0.cooldowns@[i] is Some && w0.names@[i] is Some) {
        w0.cooldowns@[i]
    } else if cooldown_points(w0.cooldowns@[i]) > 0 {
        Some(Cooldown((cooldown_points(w0.cooldowns@[i]) - 1) as u32))
    } else if attack_fired(w0, rs, i) {
        Some(Cooldown(10u32))
    } else {
        w0.cooldowns@[i]
    }
}

/// Whether the report at position `k` is a truthful record of who struck
/// whom: its actor did land an attack this tick, against a health-bearing
/// victim, and that victim is the actor's targeted entity.
pub open spec fn report_from(w0: World, rs: Seq<AttackReport>, k: int) -> bool {
    let r = rs[k];
    let i = r.actor.index as int;
    &&& attack_fired(w0, rs, i)
    &&& victim_health_present(w0, i)
    &&& r.actor == entity_at(w0, i)
    &&& r.target == victim_of(w0, i)
}

/// Whether some report was filed by the actor in slot `i`.
pub open spec fn has_report_by(rs: Seq<AttackReport>, i: int) -> bool {
    exists|k: int| 0 <= k < rs.len() && rs[k].actor.index == i
}

pub proof fn lemma_apply_reports_push(
    h: Seq<Option<Health>>,
    rs: Seq<AttackReport>,
    r: AttackReport,
)
    ensures
        apply_reports(h, rs.push(r)) == apply_report(apply_reports(h, rs), r),
{
    assert(rs.push(r).drop_last() =~= rs);
    assert(rs.push(r).last() == r);
}

pub proof fn lemma_reports_wf_push(h: Seq<Option<Health>>, rs: Seq<AttackReport>, r: AttackReport)
    ensures
        reports_wf(h, rs.push(r)) == (reports_wf(h, rs) && report_matches(
            apply_reports(h, rs),
            r,
        )),
{
    assert(rs.push(r).drop_last() =~= rs);
    assert(rs.push(r).last() == r);
}

pub proof fn lemma_reports_before_push(rs: Seq<AttackReport>, r: AttackReport, i: int)
    ensures
        reports_before(rs.push(r), i) == if r.actor.index < i {
            reports_before(rs, i).push(r)
        } else {
            reports_before(rs, i)
        },
{
    assert(rs.push(r).drop_last() =~= rs);
    assert(rs.push(r).last() == r);
}

/// When every filed report's actor comes before slot `i`, all of them have
/// landed by slot `i`'s turn.
pub proof fn lemma_reports_before_all(rs: Seq<AttackReport>, i: int)
    requires
        forall|k: int| 0 <= k < rs.len() ==> (#[trigger] rs[k]).actor.index < i,
    ensures
        reports_before(rs, i) == rs,
    decreases rs.len(),
{
    if rs.len() > 0 {
        assert(forall|k: int|
            0 <= k < rs.drop_last().len() ==> (#[trigger] rs.drop_last()[k]).actor.index < i);
        lemma_reports_before_all(rs.drop_last(), i);
        assert(rs.drop_last().push(rs.last()) =~= rs);
    }
}

/// Applying blows preserves which slots own a health component and the
/// table's length.
pub proof fn lemma_apply_reports_presence(h: Seq<Option<Health>>, rs: Seq<AttackReport>)
    ensures
        apply_reports(h, rs).len() == h.len(),
        forall|j: int| 0 <= j < h.len() ==> (apply_reports(h, rs)[j] is Some <==> h[j] is Some),
    decreases rs.len(),
{
    if rs.len() > 0 {
        lemma_apply_reports_presence(h, rs.drop_last());
    }
}

/// Law: across an attack tick, every entity's health is monotonically
/// non-increasing — blows only ever lower hit points, and the floor at
/// zero means health, a natural count, never drops below zero.
pub proof fn lemma_attack_health_monotone(h: Seq<Option<Health>>, rs: Seq<AttackReport>)
    ensures
        forall|j: int|
            0 <= j < h.len() ==> health_points(apply_reports(h, rs)[j]) <= health_points(h[j]),
    decreases rs.len(),
{
    if rs.len() > 0 {
        lemma_attack_health_monotone(h, rs.drop_last());
        lemma_apply_reports_presence(h, rs.drop_last());
    }
}

/// Law: every truthfully recorded blow reports the health it found, the
/// floored result, and whether it was lethal. In particular damage exactly
/// equal to the remaining health yields a post-health of exactly zero,
/// reported as lethal, never a negative value.
pub proof fn lemma_report_fields(h: Seq<Option<Health>>, rs: Seq<AttackReport>)
    requires
        reports_wf(h, rs),
    ensures
        forall|k: int|
            0 <= k < rs.len() ==> {
                let r = #[trigger] rs[k];
                &&& r.post_health == damage_result(r.pre_health, r.damage)
                &&& r.lethal == (r.pre_health > 0 && r.damage >= r.pre_health)
                &&& (r.damage == r.pre_health && r.pre_health > 0 ==> r.post_health == 0
                    && r.lethal)
            },
    decreases rs.len(),
{
    if rs.len() > 0 {
        lemma_report_fields(h, rs.drop_last());
        assert forall|k: int|
            0 <= k < rs.len() implies {
                let r = #[trigger] rs[k];
                &&& r.post_health == damage_result(r.pre_health, r.damage)
                &&& r.lethal == (r.pre_health > 0 && r.damage >= r.pre_health)
                &&& (r.damage == r.pre_health && r.pre_health > 0 ==> r.post_health == 0
                    && r.lethal)
            } by {
            if k < rs.len() - 1 {
                assert(rs.drop_last()[k] == rs[k]);
            } else {
                assert(rs[k] == rs.last());
                assert(report_matches(apply_reports(h, rs.drop_last()), rs.last()));
            }
        }
    }
}

/// The attack system: each tick, entities with a name and a ready cooldown
/// act in slot order; a recovering entity counts its cooldown down, a dead
/// or health-less one skips, and an AI-driven one asks its strategy for an
/// attack, applies the returned damage events, and adopts the returned
/// recovery cooldown. Resolution is deliberately sequential: an earlier
/// kill is visible to every later actor in the same tick, so the dead
/// never strike back.
pub struct AttackSystem;

impl AttackSystem {
    /// Run one attack tick, returning the structured reports for the
    /// external observation collaborator. The returned reports fully
    /// replay the tick: the new health table is exactly the old one with
    /// the reported blows applied in order; every report comes from an
    /// actor that did land an attack, and every landed attack against a
    /// health-bearing victim is reported; and the cooldown table follows
    /// the count-down / recovery / unchanged trichotomy slot by slot.
    pub fn run(&self, world: &mut World, rng: &mut RandomSource) -> (reports: Vec<AttackReport>)
        requires
            old(world).wf(),
        ensures
            final(world).wf(),
            final(world).generations@ == old(world).generations@,
            final(world).positions@ == old(world).positions@,
            final(world).targets@ == old(world).targets@,
            final(world).names@ == old(world).names@,
            final(world).models@ == old(world).models@,
            final(world).players@ == old(world).players@,
            final(world).ais@ == old(world).ais@,
            final(world).threats@ == old(world).threats@,
            final(world).healths@ == apply_reports(old(world).healths@, reports@),
            reports_wf(old(world).healths@, reports@),
            forall|k: int, l: int|
                0 <= k < l < reports@.len() ==> reports@[k].actor.index
                    < reports@[l].actor.index,
            forall|k: int| 0 <= k < reports@.len() ==> report_from(*old(world), reports@, k),
            forall|i: int|
                0 <= i < old(world).num_entities() && attack_fired(*old(world), reports@, i)
                    && victim_health_present(*old(world), i) ==> has_report_by(reports@, i),
            forall|i: int|
                0 <= i < old(world).num_entities() ==> final(world).cooldowns@[i]
                    == attack_cooldown_after(*old(world), reports@, i),
    {
        let ghost w0 = *old(world);
        let n = world.len();
        let mut reports: Vec<AttackReport> = Vec::new();
        let mut i: usize = 0;
        while i < n
            invariant
                world.wf(),
                n == world.num_entities(),
                i <= n,
                world.generations@ == w0.generations@,
                world.positions@ == w0.positions@,
                world.targets@ == w0.targets@,
                world.names@ == w0.names@,
                world.models@ == w0.models@,
                world.players@ == w0.players@,
                world.ais@ == w0.ais@,
                world.threats@ == w0.threats@,
                world.healths@ == apply_reports(w0.healths@, reports@),
                reports_wf(w0.healths@, reports@),
                forall|k: int|
                    0 <= k < reports@.len() ==> (#[trigger] reports@[k]).actor.index < i,
                forall|k: int, l: int|
                    0 <= k < l < reports@.len() ==> reports@[k].actor.index
                        < reports@[l].actor.index,
                forall|k: int| 0 <= k < reports@.len() ==> report_from(w0, reports@, k),
                forall|j: int|
                    0 <= j < i && attack_fired(w0, reports@, j) && victim_health_present(w0, j)
                        ==> has_report_by(reports@, j),
                forall|j: int|
                    0 <= j < i ==> world.cooldowns@[j] == attack_cooldown_after(w0, reports@, j),
                forall|j: int| i <= j < n ==> world.cooldowns@[j] == w0.cooldowns@[j],
            decreases n - i,
        {
            let ghost rs_pre = reports@;
            let ghost cds_pre = world.cooldowns@;
            proof {
                lemma_reports_before_all(rs_pre, i as int);
                lemma_apply_reports_presence(w0.healths@, rs_pre);
            }
            let cd_opt = world.cooldowns.get_copy(i);
            let has_name = world.names.has(i);
            if has_name {
                if let Some(cd) = cd_opt {
                    if cd.0 > 0 {
                        world.cooldowns.put(i, Cooldown(cd.0 - 1));
                    } else {
                        let own_health = match world.healths.get_copy(i) {
                            Some(h) => h.0,
                            None => 0,
                        };
                        if own_health > 0 {
                            if let Some(ai) = world.ais.get_copy(i) {
                                let monster = Entity {
                                    index: i,
                                    generation: world.generations[i],
                                };
                                proof {
                                    assert(entity_at(w0, i as int) == monster);
                                }
                                let result = ai.attack(monster, world, rng);
                                if let Some((new_cd, events)) = result {
                                    world.cooldowns.put(i, new_cd);
                                    let ev = events[0];
                                    let victim = ev.target;
                                    match world.healths.get_copy(victim.index) {
                                        Some(pre_h) => {
                                            let pre = pre_h.0;
                                            let d = match ev.attack_type {
                                                AttackType::Damage(dd) => dd,
                                            };
                                            let post = if d >= pre {
                                                0
                                            } else {
                                                pre - d
                                            };
                                            let lethal = pre > 0 && d >= pre;
                                            world.healths.put(victim.index, Health(post));
                                            let report = AttackReport {
                                                actor: monster,
                                                actor_health: own_health,
                                                target: victim,
                                                damage: d,
                                                pre_health: pre,
                                                post_health: post,
                                                lethal,
                                            };
                                            reports.push(report);
                                            proof {
                                                lemma_apply_reports_push(
                                                    w0.healths@,
                                                    rs_pre,
                                                    report,
                                                );
                                                lemma_reports_wf_push(
                                                    w0.healths@,
                                                    rs_pre,
                                                    report,
                                                );
                                            }
                                        },
                                        None => {},
                                    }
                                }
                            }
                        }
                    }
                }
            }
            proof {
                if reports@.len() > rs_pre.len() {
                    let r_new = reports@[reports@.len() - 1];
                    assert forall|j: int| 0 <= j <= i as int implies reports_before(
                        reports@,
                        j,
                    ) == reports_before(rs_pre, j) by {
                        lemma_reports_before_push(rs_pre, r_new, j);
                    }
                    assert forall|k: int|
                        0 <= k < reports@.len() implies report_from(w0, reports@, k) by {
                        if k < rs_pre.len() as int {
                            assert(report_from(w0, rs_pre, k));
                            assert(reports@[k] == rs_pre[k]);
                        }
                    }
                    assert forall|j: int|
                        0 <= j < i as int && attack_fired(w0, reports@, j)
                            && victim_health_present(w0, j) implies has_report_by(
                        reports@,
                        j,
                    ) by {
                        assert(attack_fired(w0, rs_pre, j) == attack_fired(w0, reports@, j));
                        let k = choose|k: int|
                            0 <= k < rs_pre.len() && rs_pre[k].actor.index == j;
                        assert(reports@[k] == rs_pre[k]);
                    }
                    assert forall|j: int| 0 <= j < i as int implies world.cooldowns@[j]
                        == attack_cooldown_after(w0, reports@, j) by {
                        assert(world.cooldowns@[j] == cds_pre[j]);
                        assert(attack_cooldown_after(w0, reports@, j) == attack_cooldown_after(
                            w0,
                            rs_pre,
                            j,
                        ));
                    }
                }
                assert(reports_before(reports@, i as int) == rs_pre);
                assert(world.cooldowns@[i as int] == attack_cooldown_after(
                    w0,
                    reports@,
                    i as int,
                ));
                if attack_fired(w0, reports@, i as int) && victim_health_present(
                    w0,
                    i as int,
                ) {
                    assert(has_report_by(reports@, i as int)) by {
                        assert(reports@[reports@.len() - 1].actor.index == i as int);
                    }
                }
            }
            i = i + 1;
        }
        reports
    }
}

} // verus!
