pub mod ai;
pub mod attack;
pub mod comp;
pub mod dispatcher;
pub mod events;
pub mod laws;
pub mod monster;
pub mod movement;
pub mod random;
pub mod targeting;
pub mod world;
