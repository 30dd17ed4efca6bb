pub mod cimitery_buffer_exp_7;
pub mod simulation_descriptor;
