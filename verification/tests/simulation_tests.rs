use krabmaga::engine::simulation::{next_run_action, RunAction};

fn count_updates(steps: Option<u32>) -> (u32, RunAction) {
    let mut done: u32 = 0;
    loop {
        match next_run_action(steps, done) {
            RunAction::Update => done += 1,
            other => return (done, other),
        }
    }
}

#[test]
fn run_with_steps_updates_exactly_that_many_times() {
    assert_eq!(count_updates(Some(5)), (5, RunAction::Finish));
    assert_eq!(count_updates(Some(0)), (0, RunAction::Finish));
}

#[test]
fn run_without_steps_hands_over_to_runner() {
    assert_eq!(count_updates(None), (0, RunAction::RunUnbounded));
    assert_eq!(next_run_action(None, 7), RunAction::RunUnbounded);
}

#[test]
fn next_run_action_cases() {
    assert_eq!(next_run_action(Some(3), 2), RunAction::Update);
    assert_eq!(next_run_action(Some(3), 3), RunAction::Finish);
    assert_eq!(next_run_action(Some(3), 4), RunAction::Finish);
}
