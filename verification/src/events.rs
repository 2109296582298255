use vstd::prelude::*;

use crate::comp::Entity;

verus! {

/// The kind of effect an attack produces.
#[derive(Clone, Copy, Debug)]
pub enum AttackType {
    Damage(u32),
}

/// A damage event returned by a strategy: the strategy has already
/// validated range, and the attack system applies the effect.
#[derive(Clone, Copy, Debug)]
pub struct AttackEvent {
    pub target: Entity,
    pub attack_type: AttackType,
}

/// The structured record of one resolved attack, handed to the external
/// observation collaborator. The payload is the contract; formatting it is
/// out of scope here.
#[derive(Clone, Copy, Debug)]
pub struct AttackReport {
    pub actor: Entity,
    pub actor_health: u32,
    pub target: Entity,
    pub damage: u32,
    pub pre_health: u32,
    pub post_health: u32,
    pub lethal: bool,
}

/// The damage amount an event carries.
pub open spec fn damage_of(ev: AttackEvent) -> u32 {
    match ev.attack_type {
        AttackType::Damage(d) => d,
    }
}

} // verus!
