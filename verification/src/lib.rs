//! The core of a small 2D platformer: the entity components, the tile map
//! and level model, the game systems — keyboard control, position
//! integration, animation — and, at the center, the physics/collision
//! bridge that ties the entity data model to an external rigid-body
//! simulation.

pub mod components;
pub mod level_file;
pub mod map;
pub mod math;
pub mod registry;
pub mod renderer;
pub mod resources;
pub mod systems;
pub mod texture_manager;
