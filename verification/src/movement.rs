use vstd::prelude::*;

use crate::comp::{Entity, Position, Target};
use crate::world::{valid_handle, World};

verus! {

/// One axis of a king-move step: the axis moves one unit toward the goal
/// exactly when the absolute difference on that axis exceeds one, and is
/// left unchanged otherwise.
pub open spec fn axis_step(from: int, to: int) -> int {
    if to - from > 1 {
        from + 1
    } else if from - to > 1 {
        from - 1
    } else {
        from
    }
}

/// Chebyshev adjacency: both axis differences are within one unit
/// (diagonals included).
pub open spec fn chebyshev_close(p: Position, q: Position) -> bool {
    &&& -1 <= p.0 - q.0 <= 1
    &&& -1 <= p.1 - q.1 <= 1
}

/// The king-move step from `p` toward `q`, one unit on each axis whose
/// distance exceeds one.
pub open spec fn stepped(p: Position, q: Position) -> Position {
    Position(
        axis_step(p.0 as int, q.0 as int) as i32,
        axis_step(p.1 as int, q.1 as int) as i32,
    )
}

/// Whether the entity in slot `i` moves on its turn: it holds a resolved
/// target, both it and the target have a position, and the two positions
/// are not yet adjacent. A stale or unset target, or a missing position on
/// either side, skips the move for this tick.
pub open spec fn move_ready(
    generations: Seq<u32>,
    targets: Seq<Option<Target>>,
    positions: Seq<Option<Position>>,
    i: int,
) -> bool {
    &&& 0 <= i < positions.len()
    &&& i < targets.len()
    &&& targets[i] matches Some(t)
    &&& targets[i]->Some_0.0 matches Some(e)
    &&& positions[i] is Some
    &&& valid_handle(generations, targets[i]->Some_0.0->Some_0)
    &&& targets[i]->Some_0.0->Some_0.index < positions.len()
    &&& positions[targets[i]->Some_0.0->Some_0.index as int] is Some
    &&& !chebyshev_close(
        positions[i]->Some_0,
        positions[targets[i]->Some_0.0->Some_0.index as int]->Some_0,
    )
}

/// The position table after the entity in slot `i` takes its movement
/// turn. Positions already written by earlier turns are what the entity
/// sees: movement is a sequential pass in slot order.
pub open spec fn move_turn(
    generations: Seq<u32>,
    targets: Seq<Option<Target>>,
    positions: Seq<Option<Position>>,
    i: int,
) -> Seq<Option<Position>> {
    if move_ready(generations, targets, positions, i) {
        let p = positions[i]->Some_0;
        let e = targets[i]->Some_0.0->Some_0;
        let q = positions[e.index as int]->Some_0;
        positions.update(i, Some(stepped(p, q)))
    } else {
        positions
    }
}

/// The position table after the first `k` slots have taken their turns in
/// order.
pub open spec fn move_prefix(
    generations: Seq<u32>,
    targets: Seq<Option<Target>>,
    positions: Seq<Option<Position>>,
    k: int,
) -> Seq<Option<Position>>
    decreases k,
{
    if k <= 0 {
        positions
    } else {
        move_turn(generations, targets, move_prefix(generations, targets, positions, k - 1), k - 1)
    }
}

pub proof fn lemma_move_prefix_len(
    generations: Seq<u32>,
    targets: Seq<Option<Target>>,
    positions: Seq<Option<Position>>,
    k: int,
)
    ensures
        move_prefix(generations, targets, positions, k).len() == positions.len(),
    decreases k,
{
    if k > 0 {
        lemma_move_prefix_len(generations, targets, positions, k - 1);
    }
}

/// A movement turn touches no slot but its own.
pub proof fn lemma_move_turn_other(
    generations: Seq<u32>,
    targets: Seq<Option<Target>>,
    positions: Seq<Option<Position>>,
    i: int,
    j: int,
)
    requires
        0 <= j < positions.len(),
        j != i,
    ensures
        move_turn(generations, targets, positions, i)[j] == positions[j],
{
}

/// Until slot `i` takes its own turn, its position is untouched.
pub proof fn lemma_move_prefix_before(
    generations: Seq<u32>,
    targets: Seq<Option<Target>>,
    positions: Seq<Option<Position>>,
    k: int,
    i: int,
)
    requires
        0 <= i < positions.len(),
        k <= i,
    ensures
        move_prefix(generations, targets, positions, k)[i] == positions[i],
    decreases k,
{
    if k > 0 {
        lemma_move_prefix_len(generations, targets, positions, k - 1);
        lemma_move_prefix_before(generations, targets, positions, k - 1, i);
    }
}

/// Movement turns never add or remove position components: a slot owns a
/// position after the tick exactly when it owned one before.
pub proof fn lemma_move_prefix_presence(
    generations: Seq<u32>,
    targets: Seq<Option<Target>>,
    positions: Seq<Option<Position>>,
    k: int,
)
    ensures
        forall|j: int|
            0 <= j < positions.len() ==> (move_prefix(generations, targets, positions, k)[j]
                is Some <==> positions[j] is Some),
    decreases k,
{
    if k > 0 {
        lemma_move_prefix_presence(generations, targets, positions, k - 1);
        lemma_move_prefix_len(generations, targets, positions, k - 1);
    }
}

/// A slot that is not ready to move on its own turn keeps its position
/// through the whole tick.
pub proof fn lemma_move_prefix_skip(
    generations: Seq<u32>,
    targets: Seq<Option<Target>>,
    positions: Seq<Option<Position>>,
    n: int,
    i: int,
)
    requires
        0 <= i < positions.len(),
        !move_ready(generations, targets, move_prefix(generations, targets, positions, i), i),
    ensures
        move_prefix(generations, targets, positions, n)[i] == positions[i],
    decreases n,
{
    lemma_move_prefix_len(generations, targets, positions, i);
    if n <= i {
        lemma_move_prefix_before(generations, targets, positions, n, i);
    } else {
        lemma_move_prefix_skip(generations, targets, positions, n - 1, i);
        lemma_move_prefix_len(generations, targets, positions, n - 1);
        if n - 1 == i {
            lemma_move_prefix_before(generations, targets, positions, i, i);
        } else {
            lemma_move_turn_other(
                generations,
                targets,
                move_prefix(generations, targets, positions, n - 1),
                n - 1,
                i,
            );
        }
    }
}

/// Law: one movement tick changes each axis of an entity's position by at
/// most one unit, and never conjures a position up or away.
pub proof fn lemma_movement_axis_bound(
    generations: Seq<u32>,
    targets: Seq<Option<Target>>,
    positions: Seq<Option<Position>>,
    n: int,
    i: int,
)
    requires
        0 <= i < positions.len(),
    ensures
        ({
            let after = move_prefix(generations, targets, positions, n)[i];
            &&& (after is Some <==> positions[i] is Some)
            &&& (positions[i] is Some && after is Some) ==> {
                let p = positions[i]->Some_0;
                let q = after->Some_0;
                &&& -1 <= q.0 - p.0 <= 1
                &&& -1 <= q.1 - p.1 <= 1
            }
        }),
    decreases n,
{
    if n > 0 {
        lemma_movement_axis_bound(generations, targets, positions, n - 1, i);
        lemma_move_prefix_len(generations, targets, positions, n - 1);
        let s = move_prefix(generations, targets, positions, n - 1);
        if n - 1 == i {
            lemma_move_prefix_before(generations, targets, positions, i, i);
            if move_ready(generations, targets, s, i) {
                let p = s[i]->Some_0;
                let q = s[targets[i]->Some_0.0->Some_0.index as int]->Some_0;
                assert(i32::MIN <= axis_step(p.0 as int, q.0 as int) <= i32::MAX);
                assert(i32::MIN <= axis_step(p.1 as int, q.1 as int) <= i32::MAX);
            }
        } else {
            lemma_move_turn_other(generations, targets, s, n - 1, i);
        }
    }
}

/// Law: an entity already within king-move range of its positioned target
/// does not move on its turn.
pub proof fn lemma_movement_adjacent_no_move(
    generations: Seq<u32>,
    targets: Seq<Option<Target>>,
    positions: Seq<Option<Position>>,
    i: int,
)
    requires
        0 <= i < positions.len(),
        positions[i] matches Some(p),
        targets.len() > i,
        targets[i] matches Some(t),
        targets[i]->Some_0.0 matches Some(e),
        valid_handle(generations, targets[i]->Some_0.0->Some_0),
        targets[i]->Some_0.0->Some_0.index < positions.len(),
        positions[targets[i]->Some_0.0->Some_0.index as int] matches Some(q),
        chebyshev_close(
            positions[i]->Some_0,
            positions[targets[i]->Some_0.0->Some_0.index as int]->Some_0,
        ),
    ensures
        move_turn(generations, targets, positions, i) == positions,
{
}

/// The movement system: each tick, every entity with a resolved target
/// closes in by one king-move step, in slot order, each turn seeing the
/// positions already written by earlier turns.
pub struct MovementSystem;

impl MovementSystem {
    /// Run one movement tick. Only the position storage changes, and the
    /// whole tick is the sequential fold of the per-slot steps.
    pub fn run(&self, world: &mut World)
        requires
            old(world).wf(),
        ensures
            final(world).wf(),
            final(world).positions@ == move_prefix(
                old(world).generations@,
                old(world).targets@,
                old(world).positions@,
                old(world).num_entities() as int,
            ),
            final(world).generations@ == old(world).generations@,
            final(world).healths@ == old(world).healths@,
            final(world).targets@ == old(world).targets@,
            final(world).cooldowns@ == old(world).cooldowns@,
            final(world).names@ == old(world).names@,
            final(world).models@ == old(world).models@,
            final(world).players@ == old(world).players@,
            final(world).ais@ == old(world).ais@,
            final(world).threats@ == old(world).threats@,
    {
        let ghost gens0 = world.generations@;
        let ghost targets0 = world.targets@;
        let ghost positions0 = world.positions@;
        let n = world.len();
        let mut i: usize = 0;
        while i < n
            invariant
                world.wf(),
                n == world.num_entities(),
                i <= n,
                world.generations@ == gens0,
                world.targets@ == targets0,
                world.healths@ == old(world).healths@,
                world.cooldowns@ == old(world).cooldowns@,
                world.names@ == old(world).names@,
                world.models@ == old(world).models@,
                world.players@ == old(world).players@,
                world.ais@ == old(world).ais@,
                world.threats@ == old(world).threats@,
                world.positions@ == move_prefix(gens0, targets0, positions0, i as int),
            decreases n - i,
        {
            proof {
                lemma_move_prefix_len(gens0, targets0, positions0, i as int);
            }
            let tslot = world.targets.get_copy(i);
            if let Some(Target(Some(e))) = tslot {
                if world.valid(e) {
                    let pslot = world.positions.get_copy(i);
                    let qslot = world.positions.get_copy(e.index);
                    if let (Some(p), Some(q)) = (pslot, qslot) {
                        let dx: i64 = q.0 as i64 - p.0 as i64;
                        let dy: i64 = q.1 as i64 - p.1 as i64;
                        if dx > 1 || dx < -1 || dy > 1 || dy < -1 {
                            let nx: i32 = if dx > 1 {
                                p.0 + 1
                            } else if dx < -1 {
                                p.0 - 1
                            } else {
                                p.0
                            };
                            let ny: i32 = if dy > 1 {
                                p.1 + 1
                            } else if dy < -1 {
                                p.1 - 1
                            } else {
                                p.1
                            };
                            world.positions.put(i, Position(nx, ny));
                        }
                    }
                }
            }
            proof {
                assert(world.positions@ == move_prefix(gens0, targets0, positions0, i as int + 1));
            }
            i = i + 1;
        }
    }
}

} // verus!
