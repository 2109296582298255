use vstd::prelude::*;

use crate::comp::{
    Cooldown, Entity, Health, Model, Name, PlayerControl, Position, Target, ThreatTable,
};
use crate::ai::AIControl;

verus! {

/// One storage container for a single component kind, keyed by entity slot
/// index. A slot holds `None` when the entity lacks the component: a lookup
/// for such an entity reports absence rather than a default value.
pub struct Storage<T> {
    slots: Vec<Option<T>>,
}

impl<T> View for Storage<T> {
    type V = Seq<Option<T>>;

    closed spec fn view(&self) -> Seq<Option<T>> {
        self.slots@
    }
}

impl<T> Storage<T> {
    pub fn new() -> (r: Storage<T>)
        ensures
            r@ == Seq::<Option<T>>::empty(),
    {
        Storage { slots: Vec::new() }
    }

    pub fn len(&self) -> (r: usize)
        ensures
            r == self@.len(),
    {
        self.slots.len()
    }

    /// Open a fresh slot, with the component absent.
    pub fn push_empty(&mut self)
        ensures
            final(self)@ == old(self)@.push(None::<T>),
    {
        self.slots.push(None);
    }

    /// Whether the entity in the given slot owns this component.
    pub fn has(&self, i: usize) -> (r: bool)
        ensures
            r == (i < self@.len() && self@[i as int] is Some),
    {
        i < self.slots.len() && self.slots[i].is_some()
    }

    pub fn get(&self, i: usize) -> (r: Option<&T>)
        ensures
            match r {
                Some(t) => i < self@.len() && self@[i as int] == Some(*t),
                None => !(i < self@.len() && self@[i as int] is Some),
            },
    {
        if i < self.slots.len() {
            self.slots[i].as_ref()
        } else {
            None
        }
    }

    pub fn get_copy(&self, i: usize) -> (r: Option<T>) where T: Copy
        ensures
            r == if i < self@.len() {
                self@[i as int]
            } else {
                None::<T>
            },
    {
        if i < self.slots.len() {
            self.slots[i]
        } else {
            None
        }
    }

    /// Attach or overwrite the component of the entity in slot `i`.
    pub fn put(&mut self, i: usize, t: T)
        requires
            i < old(self)@.len(),
        ensures
            final(self)@ == old(self)@.update(i as int, Some(t)),
    {
        self.slots.set(i, Some(t));
    }
}

/// The aggregate component store: one `Storage` per component kind, all
/// keyed by the same entity slot indices, plus the generation counter that
/// stamps out stale entity handles. The world is the sole authority for
/// entity validity.
pub struct World {
    pub generations: Vec<u32>,
    pub positions: Storage<Position>,
    pub healths: Storage<Health>,
    pub targets: Storage<Target>,
    pub cooldowns: Storage<Cooldown>,
    pub names: Storage<Name>,
    pub models: Storage<Model>,
    pub players: Storage<PlayerControl>,
    pub ais: Storage<AIControl>,
    pub threats: Storage<ThreatTable>,
}

impl World {
    /// Every storage has exactly one slot per created entity.
    pub open spec fn wf(self) -> bool {
        &&& self.positions@.len() == self.generations@.len()
        &&& self.healths@.len() == self.generations@.len()
        &&& self.targets@.len() == self.generations@.len()
        &&& self.cooldowns@.len() == self.generations@.len()
        &&& self.names@.len() == self.generations@.len()
        &&& self.models@.len() == self.generations@.len()
        &&& self.players@.len() == self.generations@.len()
        &&& self.ais@.len() == self.generations@.len()
        &&& self.threats@.len() == self.generations@.len()
    }

    pub open spec fn num_entities(self) -> nat {
        self.generations@.len()
    }

    /// An entity handle is valid when its slot exists and its generation
    /// matches the slot's current generation.
    pub open spec fn valid_spec(self, e: Entity) -> bool {
        valid_handle(self.generations@, e)
    }

    pub fn new() -> (r: World)
        ensures
            r.wf(),
            r.num_entities() == 0,
    {
        World {
            generations: Vec::new(),
            positions: Storage::new(),
            healths: Storage::new(),
            targets: Storage::new(),
            cooldowns: Storage::new(),
            names: Storage::new(),
            models: Storage::new(),
            players: Storage::new(),
            ais: Storage::new(),
            threats: Storage::new(),
        }
    }

    pub fn len(&self) -> (r: usize)
        ensures
            r == self.num_entities(),
    {
        self.generations.len()
    }

    pub fn valid(&self, e: Entity) -> (r: bool)
        ensures
            r == self.valid_spec(e),
    {
        e.index < self.generations.len() && self.generations[e.index] == e.generation
    }

    /// Create a fresh entity: every storage gains one empty slot, and the
    /// returned handle is valid for the new world.
    pub fn create_entity(&mut self) -> (e: Entity)
        requires
            old(self).wf(),
            old(self).num_entities() < usize::MAX,
        ensures
            final(self).wf(),
            e.index == old(self).num_entities(),
            e.generation == 0,
            final(self).valid_spec(e),
            final(self).generations@ == old(self).generations@.push(0u32),
            final(self).positions@ == old(self).positions@.push(None::<Position>),
            final(self).healths@ == old(self).healths@.push(None::<Health>),
            final(self).targets@ == old(self).targets@.push(None::<Target>),
            final(self).cooldowns@ == old(self).cooldowns@.push(None::<Cooldown>),
            final(self).names@ == old(self).names@.push(None::<Name>),
            final(self).models@ == old(self).models@.push(None::<Model>),
            final(self).players@ == old(self).players@.push(None::<PlayerControl>),
            final(self).ais@ == old(self).ais@.push(None::<AIControl>),
            final(self).threats@ == old(self).threats@.push(None::<ThreatTable>),
    {
        let index = self.generations.len();
        self.generations.push(0);
        self.positions.push_empty();
        self.healths.push_empty();
        self.targets.push_empty();
        self.cooldowns.push_empty();
        self.names.push_empty();
        self.models.push_empty();
        self.players.push_empty();
        self.ais.push_empty();
        self.threats.push_empty();
        Entity { index, generation: 0 }
    }

    /// The maintenance seam that closes a tick: structural changes queued
    /// while systems ran would be applied here. The current system set
    /// queues none, so the world is left exactly as it stands.
    pub fn maintain(&mut self)
        ensures
            *final(self) == *old(self),
    {
    }
}

/// Whether an entity handle refers to a live slot of the given generation
/// table: the slot exists and the handle's generation is current.
pub open spec fn valid_handle(generations: Seq<u32>, e: Entity) -> bool {
    e.index < generations.len() && generations[e.index as int] == e.generation
}

/// Hit points of a slot, with an absent component read as zero.
pub open spec fn health_points(h: Option<Health>) -> nat {
    match h {
        Some(hp) => hp.0 as nat,
        None => 0,
    }
}

/// Whether the entity in slot `i` is alive: it owns a health component
/// whose value is positive.
pub open spec fn is_live(healths: Seq<Option<Health>>, i: int) -> bool {
    0 <= i < healths.len() && health_points(healths[i]) > 0
}

/// How many of the slots below `k` hold a living entity.
pub open spec fn living_below(healths: Seq<Option<Health>>, k: int) -> nat
    decreases k,
{
    if k <= 0 {
        0
    } else {
        living_below(healths, k - 1) + if is_live(healths, k - 1) {
            1nat
        } else {
            0nat
        }
    }
}

pub proof fn lemma_living_below_bound(healths: Seq<Option<Health>>, k: int)
    ensures
        living_below(healths, k) <= if k <= 0 { 0 } else { k as nat },
    decreases k,
{
    if k > 0 {
        lemma_living_below_bound(healths, k - 1);
    }
}

/// A living slot below `k` contributes to the count below `k`.
pub proof fn lemma_live_counted(healths: Seq<Option<Health>>, i: int, k: int)
    requires
        is_live(healths, i),
        i < k,
    ensures
        living_below(healths, k) >= 1,
    decreases k,
{
    if i < k - 1 {
        lemma_live_counted(healths, i, k - 1);
    }
}

/// Two distinct living slots force a count of at least two.
pub proof fn lemma_two_live(healths: Seq<Option<Health>>, i: int, j: int, k: int)
    requires
        is_live(healths, i),
        is_live(healths, j),
        i < j < k,
    ensures
        living_below(healths, k) >= 2,
    decreases k,
{
    if j < k - 1 {
        lemma_two_live(healths, i, j, k - 1);
    } else {
        lemma_live_counted(healths, i, j);
    }
}

impl World {
    /// Count the living entities, as the tick driver does to decide
    /// termination.
    pub fn living_count(&self) -> (r: usize)
        requires
            self.wf(),
        ensures
            r == living_below(self.healths@, self.num_entities() as int),
    {
        let n = self.generations.len();
        let mut count: usize = 0;
        let mut i: usize = 0;
        while i < n
            invariant
                self.wf(),
                n == self.num_entities(),
                i <= n,
                count == living_below(self.healths@, i as int),
                count <= i,
            decreases n - i,
        {
            proof {
                lemma_living_below_bound(self.healths@, i as int + 1);
            }
            match self.healths.get_copy(i) {
                Some(h) => {
                    if h.0 > 0 {
                        count = count + 1;
                    }
                },
                None => {},
            }
            i = i + 1;
        }
        count
    }

    /// The sole survivor, if there is exactly one living entity: a valid
    /// handle to the unique slot that is still alive. `None` when zero or
    /// several entities live on.
    pub fn winner(&self) -> (r: Option<Entity>)
        requires
            self.wf(),
        ensures
            match r {
                Some(e) => {
                    &&& living_below(self.healths@, self.num_entities() as int) == 1
                    &&& self.valid_spec(e)
                    &&& is_live(self.healths@, e.index as int)
                    &&& forall|j: int|
                        0 <= j < self.num_entities() && j != e.index ==> !is_live(
                            self.healths@,
                            j,
                        )
                },
                None => living_below(self.healths@, self.num_entities() as int) != 1,
            },
    {
        let n = self.generations.len();
        let mut count: usize = 0;
        let mut found: Option<Entity> = None;
        let mut i: usize = 0;
        while i < n
            invariant
                self.wf(),
                n == self.num_entities(),
                i <= n,
                count == living_below(self.healths@, i as int),
                count <= i,
                count >= 1 ==> (match found {
                    Some(e) => self.valid_spec(e) && e.index < i && is_live(
                        self.healths@,
                        e.index as int,
                    ),
                    None => false,
                }),
            decreases n - i,
        {
            proof {
                lemma_living_below_bound(self.healths@, i as int + 1);
            }
            match self.healths.get_copy(i) {
                Some(h) => {
                    if h.0 > 0 {
                        count = count + 1;
                        found = Some(Entity { index: i, generation: self.generations[i] });
                    }
                },
                None => {},
            }
            i = i + 1;
        }
        if count == 1 {
            proof {
                let e = found->Some_0;
                assert forall|j: int|
                    0 <= j < self.num_entities() && j != e.index implies !is_live(
                    self.healths@,
                    j,
                ) by {
                    if is_live(self.healths@, j) {
                        if j < e.index as int {
                            lemma_two_live(self.healths@, j, e.index as int, n as int);
                        } else {
                            lemma_two_live(self.healths@, e.index as int, j, n as int);
                        }
                    }
                }
            }
            found
        } else {
            None
        }
    }
}

} // verus!
