use vstd::prelude::*;

use crate::engine::resources::simulation_descriptor::SimulationDescriptorT;

verus! {

/// Advances the simulation by one step: `current_step` grows by one, the rest of
/// the descriptor stays as it was.
pub fn simulation_descriptor_update_system(simulation_descriptor: &mut SimulationDescriptorT)
    requires
        old(simulation_descriptor).current_step < u64::MAX,
    ensures
        final(simulation_descriptor).current_step == old(simulation_descriptor).current_step + 1,
        final(simulation_descriptor).simulation_dim == old(simulation_descriptor).simulation_dim,
        final(simulation_descriptor).paused == old(simulation_descriptor).paused,
        final(simulation_descriptor).rand_seed == old(simulation_descriptor).rand_seed,
        final(simulation_descriptor).steps == old(simulation_descriptor).steps,
        final(simulation_descriptor).num_threads == old(simulation_descriptor).num_threads,
        final(simulation_descriptor).seed == old(simulation_descriptor).seed,
        final(simulation_descriptor).title == old(simulation_descriptor).title,
{
    simulation_descriptor.current_step = simulation_descriptor.current_step + 1;
}

} // verus!
