use vstd::prelude::*;

verus! {

/// An opaque entity identity: a storage slot index together with a
/// generation counter, so that a reference to a reused slot can be told
/// apart from a reference to the slot's previous occupant.
#[derive(Clone, Copy, Debug, PartialEq, Eq, Structural, Hash)]
pub struct Entity {
    pub index: usize,
    pub generation: u32,
}

/// Integer coordinates on an unbounded grid. Mutated only by movement.
#[derive(Clone, Copy, Debug)]
pub struct Position(pub i32, pub i32);

/// Remaining hit points. Zero means dead; dead entities stay in the world
/// but are excluded from targeting and from acting. Mutated only by attack
/// resolution.
#[derive(Clone, Copy, Debug)]
pub struct Health(pub u32);

/// An optional reference to another entity. `None` means no target is
/// selected. A held reference may go stale: consumers re-validate liveness
/// and presence on every use. Mutated only by targeting.
#[derive(Clone, Copy, Debug)]
pub struct Target(pub Option<Entity>);

/// Turns remaining before the entity may attack again.
#[derive(Clone, Copy, Debug)]
pub struct Cooldown(pub u32);

/// Display model identifier. Immutable after creation.
#[derive(Clone, Copy, Debug)]
pub struct Model(pub u32);

/// Display label. Immutable after creation.
#[derive(Clone, Debug)]
pub struct Name(pub String);

/// Zero-size marker for player-driven entities. No system acts on it yet;
/// it reserves a branch for future interactive control.
#[derive(Clone, Copy, Debug, Default)]
pub struct PlayerControl;

/// Parallel arrays mapping entities to accumulated threat weight. Declared
/// as an extension point; no system in this core reads or writes it.
#[derive(Clone, Debug)]
pub struct ThreatTable(pub Vec<Entity>, pub Vec<u32>);

} // verus!
