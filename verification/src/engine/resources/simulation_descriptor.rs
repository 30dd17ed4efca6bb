use vstd::prelude::*;

verus! {

/// A point of the continuous simulation space. Each coordinate is kept as the bit
/// pattern of its `f32` value (`f32::to_bits`), so that the descriptor holds it
/// exactly; the library only stores and hands it back.
#[derive(Clone, Copy, Debug, PartialEq, Eq, Structural)]
pub struct Real2DBits {
    pub x_bits: u32,
    pub y_bits: u32,
}

/// The data that describes a running simulation.
pub struct SimulationDescriptorT {
    pub current_step: u64,
    pub simulation_dim: Real2DBits,
    pub paused: bool,
    pub rand_seed: u64,
    pub steps: Option<u32>,
    pub num_threads: usize,
    pub seed: u64,
    pub title: String,
}

/// A control that the user gives a running simulation from its panel.
#[derive(Clone, Copy, Debug, PartialEq, Eq, Structural)]
pub enum SimulationControl {
    Start,
    Stop,
    Pause,
}

impl SimulationDescriptorT {
    /// Applies a control from the user: `Start` lets the simulation run, `Stop` and
    /// `Pause` halt it. Nothing else in the descriptor changes.
    pub fn apply_control(&mut self, control: SimulationControl)
        ensures
            final(self).paused == (control != SimulationControl::Start),
            final(self).current_step == old(self).current_step,
            final(self).simulation_dim == old(self).simulation_dim,
            final(self).rand_seed == old(self).rand_seed,
            final(self).steps == old(self).steps,
            final(self).num_threads == old(self).num_threads,
            final(self).seed == old(self).seed,
            final(self).title == old(self).title,
    {
        match control {
            SimulationControl::Start => {
                self.paused = false;
            },
            SimulationControl::Stop => {
                self.paused = true;
            },
            SimulationControl::Pause => {
                self.paused = true;
            },
        }
    }

    /// The simulation is running: it is not paused.
    pub fn is_not_paused(&self) -> (running: bool)
        ensures
            running == !self.paused,
    {
        !self.paused
    }
}

impl Default for SimulationDescriptorT {
    /// A paused simulation at step 0 of a 0 by 0 space, with one thread, no step
    /// limit, seeds 0 and the title `default-simulation-title`.
    fn default() -> (descriptor: SimulationDescriptorT)
        ensures
            descriptor.current_step == 0,
            descriptor.simulation_dim == (Real2DBits { x_bits: 0, y_bits: 0 }),
            descriptor.paused,
            descriptor.rand_seed == 0,
            descriptor.steps is None,
            descriptor.num_threads == 1,
            descriptor.seed == 0,
            descriptor.title@ == "default-simulation-title"@,
    {
        SimulationDescriptorT {
            current_step: 0,
            simulation_dim: Real2DBits { x_bits: 0, y_bits: 0 },
            paused: true,
            rand_seed: 0,
            steps: None,
            num_threads: 1,
            seed: 0,
            title: "default-simulation-title".to_owned(),
        }
    }
}

} // verus!
