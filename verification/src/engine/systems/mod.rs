pub mod simulation_descriptor_update;
