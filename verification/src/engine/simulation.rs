use vstd::prelude::*;

verus! {

/// What a simulation run does next.
#[derive(Clone, Copy, Debug, PartialEq, Eq, Structural)]
pub enum RunAction {
    /// Run one more step.
    Update,
    /// The requested number of steps has run; stop.
    Finish,
    /// No step limit was given: hand the simulation to the runner, which runs it
    /// until it is closed.
    RunUnbounded,
}

/// The next action of a run limited to `steps` steps (none: unlimited) once `done`
/// steps have run.
pub open spec fn run_action(steps: Option<u32>, done: u32) -> RunAction {
    match steps {
        Some(n) => if done < n {
            RunAction::Update
        } else {
            RunAction::Finish
        },
        None => RunAction::RunUnbounded,
    }
}

/// Decides the next action of a run limited to `steps` steps once `done` steps have
/// run: another step while fewer than `steps` have run, then finish; with no limit,
/// hand over to the runner.
pub fn next_run_action(steps: Option<u32>, done: u32) -> (a: RunAction)
    ensures
        a == run_action(steps, done),
        (steps matches Some(n) ==> a == (if done < n {
            RunAction::Update
        } else {
            RunAction::Finish
        })),
        (steps is None ==> a == RunAction::RunUnbounded),
{
    match steps {
        Some(n) => if done < n {
            RunAction::Update
        } else {
            RunAction::Finish
        },
        None => RunAction::RunUnbounded,
    }
}

/// The number of steps that a run limited to `steps` steps performs when it starts
/// with `done` steps done and follows `run_action`, counting one per `Update`, until
/// it finishes.
pub open spec fn steps_run(n: u32, done: u32) -> nat
    decreases n - done,
{
    if done < n {
        1 + steps_run(n, (done + 1) as u32)
    } else {
        0
    }
}

/// A run limited to `n` steps performs exactly `n` steps: following `run_action`
/// from zero steps done, it updates `n` times and then finishes, and it never hands
/// over to the runner.
pub proof fn lemma_run_performs_exactly_steps(n: u32, done: u32)
    requires
        done <= n,
    ensures
        steps_run(n, done) == n - done,
        run_action(Some(n), n) == RunAction::Finish,
        forall|d: u32| done <= d < n ==> run_action(Some(n), d) == RunAction::Update,
    decreases n - done,
{
    if done < n {
        lemma_run_performs_exactly_steps(n, (done + 1) as u32);
    }
}

} // verus!
