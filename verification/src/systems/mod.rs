pub mod animator;
pub mod boundary_enforcer;
pub mod keyboard;
pub mod physics;
pub mod position_updater;
