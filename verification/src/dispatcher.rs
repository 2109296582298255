use vstd::prelude::*;

use crate::attack::{
    apply_reports, attack_cooldown_after, attack_fired, has_report_by, report_from, reports_wf,
    victim_health_present, AttackSystem,
};
use crate::events::AttackReport;
use crate::movement::{move_prefix, MovementSystem};
use crate::random::RandomSource;
use crate::targeting::{targeting_turn_ok, TargetingSystem};
use crate::world::World;

verus! {

/// The three concrete systems the simulation schedules.
#[derive(Clone, Copy, Debug, PartialEq, Eq, Structural)]
pub enum SystemKind {
    Targeting,
    Movement,
    Attack,
}

pub const POSITION_BIT: u32 = 1;

pub const HEALTH_BIT: u32 = 2;

pub const TARGET_BIT: u32 = 4;

pub const COOLDOWN_BIT: u32 = 8;

pub const NAME_BIT: u32 = 16;

pub const AI_BIT: u32 = 32;

pub const PLAYER_BIT: u32 = 64;

/// The storages a system reads, declared by construction rather than
/// discovered at run time.
pub open spec fn reads_of(k: SystemKind) -> u32 {
    match k {
        SystemKind::Targeting => HEALTH_BIT | POSITION_BIT | AI_BIT,
        SystemKind::Movement => TARGET_BIT,
        SystemKind::Attack => NAME_BIT | POSITION_BIT | TARGET_BIT | AI_BIT | PLAYER_BIT,
    }
}

/// The storages a system writes, declared by construction.
pub open spec fn writes_of(k: SystemKind) -> u32 {
    match k {
        SystemKind::Targeting => TARGET_BIT,
        SystemKind::Movement => POSITION_BIT,
        SystemKind::Attack => HEALTH_BIT | COOLDOWN_BIT,
    }
}

/// Whether two systems contend on some storage: one writes what the other
/// reads or writes. Systems may run concurrently only when this is false.
pub open spec fn conflicts(a: SystemKind, b: SystemKind) -> bool {
    (writes_of(a) & (reads_of(b) | writes_of(b))) != 0 || (writes_of(b) & reads_of(a)) != 0
}

/// The declared access sets of a system, as an executable query.
pub fn system_accesses(k: SystemKind) -> (r: (u32, u32))
    ensures
        r.0 == reads_of(k),
        r.1 == writes_of(k),
{
    match k {
        SystemKind::Targeting => (HEALTH_BIT | POSITION_BIT | AI_BIT, TARGET_BIT),
        SystemKind::Movement => (TARGET_BIT, POSITION_BIT),
        SystemKind::Attack => (
            NAME_BIT | POSITION_BIT | TARGET_BIT | AI_BIT | PLAYER_BIT,
            HEALTH_BIT | COOLDOWN_BIT,
        ),
    }
}

/// Whether two systems may run concurrently: neither writes a storage the
/// other touches.
pub fn may_run_concurrently(a: SystemKind, b: SystemKind) -> (r: bool)
    ensures
        r == !conflicts(a, b),
{
    let (ra, wa) = system_accesses(a);
    let (rb, wb) = system_accesses(b);
    (wa & (rb | wb)) == 0 && (wb & ra) == 0
}

/// Law: in the standard chain each system contends with each other one —
/// targeting and movement share the target storage, movement and attack
/// the position storage, targeting and attack the target storage — so
/// execution across the three systems is effectively sequential, and only
/// work inside a single system may fan out.
pub proof fn lemma_standard_chain_sequential()
    ensures
        conflicts(SystemKind::Targeting, SystemKind::Movement),
        conflicts(SystemKind::Movement, SystemKind::Attack),
        conflicts(SystemKind::Targeting, SystemKind::Attack),
{
    assert((4u32 & (4u32 | 1u32)) != 0) by (bit_vector);
    assert((1u32 & ((16u32 | 1u32 | 4u32 | 32u32 | 64u32) | (2u32 | 8u32))) != 0)
        by (bit_vector);
    assert((4u32 & ((16u32 | 1u32 | 4u32 | 32u32 | 64u32) | (2u32 | 8u32))) != 0)
        by (bit_vector);
}

/// One registered system: its kind, a display label, and the registration
/// indices of the systems it must run after.
pub struct SystemReg {
    pub kind: SystemKind,
    pub label: String,
    pub deps: Vec<usize>,
}

/// Registrations are well formed when every declared predecessor names an
/// earlier registration.
pub open spec fn regs_wf(systems: Seq<SystemReg>) -> bool {
    forall|k: int, d: int|
        0 <= k < systems.len() && 0 <= d < systems[k].deps@.len() ==> (
        #[trigger] systems[k].deps@[d]) < k
}

/// Collects systems with their dependency edges; a predecessor must
/// already be registered when it is named, so edges always point
/// backwards.
pub struct DispatcherBuilder {
    pub systems: Vec<SystemReg>,
}

impl DispatcherBuilder {
    pub fn new() -> (r: DispatcherBuilder)
        ensures
            r.systems@.len() == 0,
    {
        DispatcherBuilder { systems: Vec::new() }
    }

    /// Register one system after the named predecessors.
    pub fn with(self, kind: SystemKind, label: String, deps: Vec<usize>) -> (r: DispatcherBuilder)
        requires
            forall|d: int| 0 <= d < deps@.len() ==> (#[trigger] deps@[d]) < self.systems@.len(),
        ensures
            r.systems@.len() == self.systems@.len() + 1,
            r.systems@ == self.systems@.push(SystemReg { kind, label, deps }),
    {
        let mut b = self;
        b.systems.push(SystemReg { kind, label, deps });
        b
    }

    /// Validate the registrations into a dispatcher.
    pub fn build(self) -> (d: Dispatcher)
        requires
            regs_wf(self.systems@),
        ensures
            d.systems@ == self.systems@,
            regs_wf(d.systems@),
    {
        Dispatcher { systems: self.systems }
    }
}

/// What one targeting run leaves behind, as a relation between the world
/// before and after: exactly the targeting system's contract.
pub open spec fn targeting_rel(w0: World, w1: World) -> bool {
    &&& w1.wf()
    &&& w1.generations@ == w0.generations@
    &&& w1.positions@ == w0.positions@
    &&& w1.healths@ == w0.healths@
    &&& w1.cooldowns@ == w0.cooldowns@
    &&& w1.names@ == w0.names@
    &&& w1.models@ == w0.models@
    &&& w1.players@ == w0.players@
    &&& w1.ais@ == w0.ais@
    &&& w1.threats@ == w0.threats@
    &&& w1.targets@.len() == w0.targets@.len()
    &&& forall|i: int|
        0 <= i < w0.num_entities() ==> targeting_turn_ok(w0, w1.targets@[i], i)
}

/// What one movement run leaves behind: the position table is the
/// sequential fold of the per-slot king-move steps, nothing else changes.
pub open spec fn movement_rel(w0: World, w1: World) -> bool {
    &&& w1.wf()
    &&& w1.generations@ == w0.generations@
    &&& w1.healths@ == w0.healths@
    &&& w1.targets@ == w0.targets@
    &&& w1.cooldowns@ == w0.cooldowns@
    &&& w1.names@ == w0.names@
    &&& w1.models@ == w0.models@
    &&& w1.players@ == w0.players@
    &&& w1.ais@ == w0.ais@
    &&& w1.threats@ == w0.threats@
    &&& w1.positions@ == move_prefix(
        w0.generations@,
        w0.targets@,
        w0.positions@,
        w0.num_entities() as int,
    )
}

/// What one attack run leaves behind, with the reports it filed: the
/// health table is the old one with the reported blows applied in order,
/// the reports replay the tick truthfully, and cooldowns follow the
/// count-down / recovery / unchanged trichotomy.
pub open spec fn attack_rel(w0: World, w1: World, rs: Seq<AttackReport>) -> bool {
    &&& w1.wf()
    &&& w1.generations@ == w0.generations@
    &&& w1.positions@ == w0.positions@
    &&& w1.targets@ == w0.targets@
    &&& w1.names@ == w0.names@
    &&& w1.models@ == w0.models@
    &&& w1.players@ == w0.players@
    &&& w1.ais@ == w0.ais@
    &&& w1.threats@ == w0.threats@
    &&& w1.healths@ == apply_reports(w0.healths@, rs)
    &&& reports_wf(w0.healths@, rs)
    &&& forall|k: int, l: int|
        0 <= k < l < rs.len() ==> rs[k].actor.index < rs[l].actor.index
    &&& forall|k: int| 0 <= k < rs.len() ==> report_from(w0, rs, k)
    &&& forall|i: int|
        0 <= i < w0.num_entities() && attack_fired(w0, rs, i) && victim_health_present(w0, i)
            ==> has_report_by(rs, i)
    &&& forall|i: int|
        0 <= i < w0.num_entities() ==> w1.cooldowns@[i] == attack_cooldown_after(w0, rs, i)
}

/// What one stage of the dispatch leaves behind, by system kind; only the
/// attack system files reports.
pub open spec fn system_stage_ok(
    kind: SystemKind,
    w0: World,
    w1: World,
    rs: Seq<AttackReport>,
) -> bool {
    match kind {
        SystemKind::Targeting => targeting_rel(w0, w1) && rs.len() == 0,
        SystemKind::Movement => movement_rel(w0, w1) && rs.len() == 0,
        SystemKind::Attack => attack_rel(w0, w1, rs),
    }
}

/// The reports of all stages, in execution order.
pub open spec fn stages_flat(segs: Seq<Seq<AttackReport>>) -> Seq<AttackReport>
    decreases segs.len(),
{
    if segs.len() == 0 {
        Seq::empty()
    } else {
        stages_flat(segs.drop_last()) + segs.last()
    }
}

/// Whether `trace` is a faithful execution trace of the registered
/// systems: it starts at `w_start`, ends at `w_end`, and each consecutive
/// pair is related by the corresponding system's contract, with `segs`
/// holding each stage's reports.
pub open spec fn dispatch_trace_ok(
    systems: Seq<SystemReg>,
    w_start: World,
    trace: Seq<World>,
    w_end: World,
    segs: Seq<Seq<AttackReport>>,
) -> bool {
    &&& trace.len() == systems.len() + 1
    &&& segs.len() == systems.len()
    &&& trace[0] == w_start
    &&& trace[systems.len() as int] == w_end
    &&& forall|k: int|
        0 <= k < systems.len() ==> system_stage_ok(
            (#[trigger] systems[k]).kind,
            trace[k],
            trace[k + 1],
            segs[k],
        )
}

/// Holds the validated registrations and runs them. The execution order
/// is deterministic per registration: a predecessor always names an
/// earlier registration and ties are broken by registration order, so the
/// unique valid schedule is exactly the registration order.
pub struct Dispatcher {
    pub systems: Vec<SystemReg>,
}

impl Dispatcher {
    /// The validated execution order: a topological order of the declared
    /// dependency edges with ties broken by registration order, which is
    /// the registration order itself.
    pub fn schedule(&self) -> (ord: Vec<usize>)
        requires
            regs_wf(self.systems@),
        ensures
            ord@.len() == self.systems@.len(),
            forall|k: int| 0 <= k < ord@.len() ==> (#[trigger] ord@[k]) == k,
            forall|k: int, d: int|
                0 <= k < ord@.len() && 0 <= d < self.systems@[ord@[k] as int].deps@.len()
                    ==> (#[trigger] self.systems@[ord@[k] as int].deps@[d]) < ord@[k],
    {
        let n = self.systems.len();
        let mut ord: Vec<usize> = Vec::new();
        let mut k: usize = 0;
        while k < n
            invariant
                k <= n,
                ord@.len() == k,
                forall|j: int| 0 <= j < k ==> (#[trigger] ord@[j]) == j,
            decreases n - k,
        {
            ord.push(k);
            k = k + 1;
        }
        ord
    }

    /// Run every registered system exactly once, in the validated order,
    /// each one seeing all effects of its predecessors fully committed.
    /// The returned reports are the attack stages' reports in execution
    /// order, and some trace of intermediate worlds ties every stage to
    /// its system's contract.
    pub fn dispatch(&self, world: &mut World, rng: &mut RandomSource) -> (reports: Vec<
        AttackReport,
    >)
        requires
            old(world).wf(),
        ensures
            final(world).wf(),
            final(world).generations@ == old(world).generations@,
            exists|trace: Seq<World>, segs: Seq<Seq<AttackReport>>|
                #[trigger] dispatch_trace_ok(
                    self.systems@,
                    *old(world),
                    trace,
                    *final(world),
                    segs,
                ) && reports@ == stages_flat(segs),
    {
        let ghost w_start = *world;
        let ghost mut trace: Seq<World> = seq![*world];
        let ghost mut segs: Seq<Seq<AttackReport>> = Seq::empty();
        let mut reports: Vec<AttackReport> = Vec::new();
        let n = self.systems.len();
        let mut i: usize = 0;
        while i < n
            invariant
                n == self.systems@.len(),
                i <= n,
                world.wf(),
                world.generations@ == w_start.generations@,
                trace.len() == i + 1,
                segs.len() == i,
                trace[0] == w_start,
                trace[i as int] == *world,
                reports@ == stages_flat(segs),
                forall|k: int|
                    0 <= k < i ==> system_stage_ok(
                        (#[trigger] self.systems@[k]).kind,
                        trace[k],
                        trace[k + 1],
                        segs[k],
                    ),
            decreases n - i,
        {
            let ghost w_prev = *world;
            let ghost trace_prev = trace;
            let ghost segs_prev = segs;
            let ghost reports_prev = reports@;
            let kind = self.systems[i].kind;
            match kind {
                SystemKind::Targeting => {
                    let s = TargetingSystem;
                    s.run(world, rng);
                    proof {
                        trace = trace.push(*world);
                        segs = segs.push(Seq::empty());
                        assert(system_stage_ok(kind, w_prev, *world, Seq::empty()));
                    }
                },
                SystemKind::Movement => {
                    let s = MovementSystem;
                    s.run(world);
                    proof {
                        trace = trace.push(*world);
                        segs = segs.push(Seq::empty());
                        assert(system_stage_ok(kind, w_prev, *world, Seq::empty()));
                    }
                },
                SystemKind::Attack => {
                    let s = AttackSystem;
                    let mut rs = s.run(world, rng);
                    let ghost rsv = rs@;
                    reports.append(&mut rs);
                    proof {
                        trace = trace.push(*world);
                        segs = segs.push(rsv);
                        assert(system_stage_ok(kind, w_prev, *world, rsv));
                    }
                },
            }
            proof {
                assert(segs.drop_last() =~= segs_prev);
                assert(trace.drop_last() =~= trace_prev);
                assert(stages_flat(segs) == stages_flat(segs_prev) + segs.last());
                assert(reports@ =~= stages_flat(segs_prev) + segs.last());
                assert forall|k: int|
                    0 <= k < i + 1 implies system_stage_ok(
                    (#[trigger] self.systems@[k]).kind,
                    trace[k],
                    trace[k + 1],
                    segs[k],
                ) by {
                    if k < i as int {
                        assert(trace[k] == trace_prev[k]);
                        assert(trace[k + 1] == trace_prev[k + 1]);
                        assert(segs[k] == segs_prev[k]);
                        assert(system_stage_ok(self.systems@[k].kind, trace_prev[k], trace_prev[k + 1], segs_prev[k]));
                    } else {
                        assert(trace[k] == w_prev);
                        assert(trace[k + 1] == *world);
                    }
                }
            }
            i = i + 1;
        }
        proof {
            assert(dispatch_trace_ok(self.systems@, *old(world), trace, *world, segs));
        }
        reports
    }
}

} // verus!
