pub mod fields;
pub mod location;
pub mod resources;
pub mod simulation;
pub mod systems;
