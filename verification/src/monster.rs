use vstd::prelude::*;

use crate::ai::AIControl;
use crate::comp::{
    Cooldown, Entity, Health, Model, Name, PlayerControl, Position, Target, ThreatTable,
};
use crate::world::World;

verus! {

/// One component value handed to the monster builder, one variant per
/// component kind an entity may carry.
pub enum ComponentValue {
    Position(Position),
    Health(Health),
    Model(Model),
    Cooldown(Cooldown),
    Target(Target),
    Ai(AIControl),
    Name(Name),
    Player(PlayerControl),
    Threat(ThreatTable),
}

/// The mandatory component a monster was built without: the construction
/// gate names the first one missing, checked in the order model, position,
/// health, strategy.
#[derive(Clone, Copy, Debug, PartialEq, Eq, Structural)]
pub enum BuildError {
    MissingModel,
    MissingPosition,
    MissingHealth,
    MissingAi,
}

/// The construction-time invariant gate: it gathers components for one
/// monster and admits the entity into the world only when the mandatory
/// set — model, position, health and an AI strategy — is complete. Target
/// and cooldown default to unset and zero when omitted. A violation aborts
/// the construction with nothing admitted: no half-valid entity exists.
pub struct MonsterBuilder {
    pub position: Option<Position>,
    pub health: Option<Health>,
    pub model: Option<Model>,
    pub cooldown: Option<Cooldown>,
    pub target: Option<Target>,
    pub ai: Option<AIControl>,
    pub name: Option<Name>,
    pub player: Option<PlayerControl>,
    pub threat: Option<ThreatTable>,
}

impl MonsterBuilder {
    /// What `with` leaves in the builder: the handed component fills its
    /// slot, everything else stays.
    pub open spec fn with_spec(self, c: ComponentValue) -> MonsterBuilder {
        match c {
            ComponentValue::Position(v) => MonsterBuilder { position: Some(v), ..self },
            ComponentValue::Health(v) => MonsterBuilder { health: Some(v), ..self },
            ComponentValue::Model(v) => MonsterBuilder { model: Some(v), ..self },
            ComponentValue::Cooldown(v) => MonsterBuilder { cooldown: Some(v), ..self },
            ComponentValue::Target(v) => MonsterBuilder { target: Some(v), ..self },
            ComponentValue::Ai(v) => MonsterBuilder { ai: Some(v), ..self },
            ComponentValue::Name(v) => MonsterBuilder { name: Some(v), ..self },
            ComponentValue::Player(v) => MonsterBuilder { player: Some(v), ..self },
            ComponentValue::Threat(v) => MonsterBuilder { threat: Some(v), ..self },
        }
    }

    /// Whether the mandatory component set is complete.
    pub open spec fn complete(self) -> bool {
        &&& self.model is Some
        &&& self.position is Some
        &&& self.health is Some
        &&& self.ai is Some
    }

    /// Names the first absent mandatory component, probing model first,
    /// then position, then health, then strategy.
    pub open spec fn gate(self) -> Result<(), BuildError> {
        if self.model is None {
            Err(BuildError::MissingModel)
        } else if self.position is None {
            Err(BuildError::MissingPosition)
        } else if self.health is None {
            Err(BuildError::MissingHealth)
        } else if self.ai is None {
            Err(BuildError::MissingAi)
        } else {
            Ok(())
        }
    }

    /// The target component the built entity carries: unset when omitted.
    pub open spec fn target_or_default(self) -> Target {
        match self.target {
            Some(t) => t,
            None => Target(None),
        }
    }

    /// The cooldown component the built entity carries: zero when omitted.
    pub open spec fn cooldown_or_default(self) -> Cooldown {
        match self.cooldown {
            Some(c) => c,
            None => Cooldown(0u32),
        }
    }

    pub fn new() -> (r: MonsterBuilder)
        ensures
            r.position is None,
            r.health is None,
            r.model is None,
            r.cooldown is None,
            r.target is None,
            r.ai is None,
            r.name is None,
            r.player is None,
            r.threat is None,
    {
        MonsterBuilder {
            position: None,
            health: None,
            model: None,
            cooldown: None,
            target: None,
            ai: None,
            name: None,
            player: None,
            threat: None,
        }
    }

    /// Record one component for the monster under construction.
    pub fn with(self, c: ComponentValue) -> (r: MonsterBuilder)
        ensures
            r == self.with_spec(c),
    {
        let mut b = self;
        match c {
            ComponentValue::Position(v) => {
                b.position = Some(v);
            },
            ComponentValue::Health(v) => {
                b.health = Some(v);
            },
            ComponentValue::Model(v) => {
                b.model = Some(v);
            },
            ComponentValue::Cooldown(v) => {
                b.cooldown = Some(v);
            },
            ComponentValue::Target(v) => {
                b.target = Some(v);
            },
            ComponentValue::Ai(v) => {
                b.ai = Some(v);
            },
            ComponentValue::Name(v) => {
                b.name = Some(v);
            },
            ComponentValue::Player(v) => {
                b.player = Some(v);
            },
            ComponentValue::Threat(v) => {
                b.threat = Some(v);
            },
        }
        b
    }

    /// Admits the entity with its components when the mandatory set is
    /// complete; on a violation the world is left exactly as it was, so
    /// no half-valid entity ever enters the simulation.
    pub fn try_build(self, world: &mut World) -> (r: Result<Entity, BuildError>)
        requires
            old(world).wf(),
            old(world).num_entities() < usize::MAX,
        ensures
            r is Ok <==> self.complete(),
            r matches Err(e) ==> self.gate() == Result::<(), BuildError>::Err(e) && *final(world)
                == *old(world),
            r matches Ok(ent) ==> {
                &&& final(world).wf()
                &&& ent.index == old(world).num_entities()
                &&& final(world).valid_spec(ent)
                &&& final(world).num_entities() == old(world).num_entities() + 1
                &&& final(world).generations@ == old(world).generations@.push(0u32)
                &&& final(world).positions@ == old(world).positions@.push(self.position)
                &&& final(world).healths@ == old(world).healths@.push(self.health)
                &&& final(world).models@ == old(world).models@.push(self.model)
                &&& final(world).ais@ == old(world).ais@.push(self.ai)
                &&& final(world).names@ == old(world).names@.push(self.name)
                &&& final(world).players@ == old(world).players@.push(self.player)
                &&& final(world).threats@ == old(world).threats@.push(self.threat)
                &&& final(world).targets@ == old(world).targets@.push(
                    Some(self.target_or_default()),
                )
                &&& final(world).cooldowns@ == old(world).cooldowns@.push(
                    Some(self.cooldown_or_default()),
                )
            },
    {
        if self.model.is_none() {
            return Err(BuildError::MissingModel);
        }
        if self.position.is_none() {
            return Err(BuildError::MissingPosition);
        }
        if self.health.is_none() {
            return Err(BuildError::MissingHealth);
        }
        if self.ai.is_none() {
            return Err(BuildError::MissingAi);
        }
        let ent = world.create_entity();
        let idx = ent.index;
        match self.position {
            Some(v) => world.positions.put(idx, v),
            None => {},
        }
        match self.health {
            Some(v) => world.healths.put(idx, v),
            None => {},
        }
        match self.model {
            Some(v) => world.models.put(idx, v),
            None => {},
        }
        match self.ai {
            Some(v) => world.ais.put(idx, v),
            None => {},
        }
        match self.name {
            Some(v) => world.names.put(idx, v),
            None => {},
        }
        match self.player {
            Some(v) => world.players.put(idx, v),
            None => {},
        }
        match self.threat {
            Some(v) => world.threats.put(idx, v),
            None => {},
        }
        match self.target {
            Some(v) => world.targets.put(idx, v),
            None => world.targets.put(idx, Target(None)),
        }
        match self.cooldown {
            Some(v) => world.cooldowns.put(idx, v),
            None => world.cooldowns.put(idx, Cooldown(0)),
        }
        Ok(ent)
    }

    /// Admit a complete monster. The completeness of the mandatory set is
    /// a precondition here; `try_build` reports a violation instead.
    pub fn build(self, world: &mut World) -> (ent: Entity)
        requires
            old(world).wf(),
            old(world).num_entities() < usize::MAX,
            self.complete(),
        ensures
            final(world).wf(),
            ent.index == old(world).num_entities(),
            final(world).valid_spec(ent),
            final(world).num_entities() == old(world).num_entities() + 1,
            final(world).generations@ == old(world).generations@.push(0u32),
            final(world).positions@ == old(world).positions@.push(self.position),
            final(world).healths@ == old(world).healths@.push(self.health),
            final(world).models@ == old(world).models@.push(self.model),
            final(world).ais@ == old(world).ais@.push(self.ai),
            final(world).names@ == old(world).names@.push(self.name),
            final(world).players@ == old(world).players@.push(self.player),
            final(world).threats@ == old(world).threats@.push(self.threat),
            final(world).targets@ == old(world).targets@.push(Some(self.target_or_default())),
            final(world).cooldowns@ == old(world).cooldowns@.push(
                Some(self.cooldown_or_default()),
            ),
    {
        let r = self.try_build(world);
        match r {
            Ok(ent) => ent,
            Err(_) => vstd::pervasive::unreached(),
        }
    }
}

/// The world-side entry point of monster construction, as a capability on
/// the world itself.
pub trait MonsterBuilderExt: Sized {
    /// Open a fresh, empty builder for one monster. Nothing enters the
    /// world until the builder's gate passes.
    fn create_monster(&mut self) -> (r: MonsterBuilder)
        ensures
            *final(self) == *old(self),
            r.position is None,
            r.health is None,
            r.model is None,
            r.cooldown is None,
            r.target is None,
            r.ai is None,
            r.name is None,
            r.player is None,
            r.threat is None,
    ;
}

impl MonsterBuilderExt for World {
    fn create_monster(&mut self) -> (r: MonsterBuilder) {
        MonsterBuilder::new()
    }
}

} // verus!
