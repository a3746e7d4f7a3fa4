//! Entity lifecycle, sprite animation and health-bar synchronisation for
//! clickable "orc" mobs, over an explicit scene-graph store.
pub mod animation;
pub mod events;
pub mod health;
pub mod systems;
pub mod world;
