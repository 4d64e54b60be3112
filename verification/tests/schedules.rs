use fizix::{StepAction, StepSchedule};

fn run(sub_steps: usize, iterations: usize, constraints: usize) -> Vec<StepAction> {
    let mut schedule = StepSchedule::new(sub_steps, iterations, constraints);
    let mut actions = Vec::new();
    while let Some(action) = schedule.next() {
        actions.push(action);
    }
    assert_eq!(schedule.next(), None);
    actions
}

#[test]
fn one_substep_one_sweep() {
    assert_eq!(
        run(1, 1, 2),
        vec![
            StepAction::Integrate,
            StepAction::ResetMultipliers,
            StepAction::Solve(0),
            StepAction::Solve(1),
            StepAction::UpdateVelocities,
        ]
    );
}

#[test]
fn two_substeps_two_sweeps() {
    let substep = vec![
        StepAction::Integrate,
        StepAction::ResetMultipliers,
        StepAction::Solve(0),
        StepAction::Solve(1),
        StepAction::Solve(2),
        StepAction::Solve(0),
        StepAction::Solve(1),
        StepAction::Solve(2),
        StepAction::UpdateVelocities,
    ];
    let mut expected = substep.clone();
    expected.extend(substep);
    assert_eq!(run(2, 2, 3), expected);
}

#[test]
fn no_substeps_no_actions() {
    assert_eq!(run(0, 4, 3), vec![]);
}

#[test]
fn no_sweeps_no_solves() {
    assert_eq!(
        run(2, 0, 3),
        vec![
            StepAction::Integrate,
            StepAction::ResetMultipliers,
            StepAction::UpdateVelocities,
            StepAction::Integrate,
            StepAction::ResetMultipliers,
            StepAction::UpdateVelocities,
        ]
    );
}

#[test]
fn no_constraints_no_solves() {
    assert_eq!(
        run(1, 5, 0),
        vec![StepAction::Integrate, StepAction::ResetMultipliers, StepAction::UpdateVelocities]
    );
}

#[test]
fn plan_length_is_substeps_times_substep_length() {
    assert_eq!(run(8, 2, 1).len(), 8 * (3 + 2));
    assert_eq!(run(8, 4, 2).len(), 8 * (3 + 4 * 2));
    assert_eq!(run(3, 7, 5).len(), 3 * (3 + 7 * 5));
}

#[test]
fn solves_follow_insertion_order_in_every_sweep() {
    let (sub_steps, iterations, constraints) = (3, 4, 5);
    let actions = run(sub_steps, iterations, constraints);
    let len = 3 + iterations * constraints;
    for substep in 0..sub_steps {
        assert_eq!(actions[substep * len], StepAction::Integrate);
        assert_eq!(actions[substep * len + 1], StepAction::ResetMultipliers);
        assert_eq!(actions[substep * len + len - 1], StepAction::UpdateVelocities);
        for iteration in 0..iterations {
            for constraint in 0..constraints {
                let place = substep * len + 2 + iteration * constraints + constraint;
                assert_eq!(actions[place], StepAction::Solve(constraint));
            }
        }
    }
}

#[test]
fn finished_schedule_stays_finished() {
    let mut schedule = StepSchedule::new(1, 0, 0);
    assert_eq!(schedule.next(), Some(StepAction::Integrate));
    assert_eq!(schedule.next(), Some(StepAction::ResetMultipliers));
    assert_eq!(schedule.next(), Some(StepAction::UpdateVelocities));
    assert_eq!(schedule.next(), None);
    assert_eq!(schedule.next(), None);
}
