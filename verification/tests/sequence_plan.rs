use host::application::sequence::{Action, Side, Stage, Start};
use host::application::sequence_plan::{
    plan, Axis, PlanError, PlannedStep, Source, StepFault, StepShape,
};

fn step(actions: &[Action]) -> StepShape {
    StepShape { actions: actions.to_vec(), wait_ok: true }
}

fn start(group: usize, stage: Stage) -> Start {
    Start { group, side: Side::Left, stage }
}

fn summary(v: &[PlannedStep]) -> Vec<(Stage, usize, Vec<(Axis, Source)>)> {
    v.iter().map(|p| (p.stage, p.step, p.entries.clone())).collect()
}

#[test]
fn a_run_lists_each_step_with_its_values() {
    let finite = [true; 19];
    let prepare = vec![step(&[Action::WorkPosition, Action::WorkRotation])];
    let pick = vec![step(&[Action::Open]), step(&[Action::Descend, Action::Close])];
    let transfer = vec![step(&[Action::Lift]), step(&[Action::BonusPosition, Action::BonusHeight])];
    let only_pick = plan(2, start(1, Stage::Pick), &prepare, &pick, &transfer, &finite).unwrap();
    assert_eq!(
        summary(&only_pick),
        vec![
            (Stage::Pick, 0, vec![
                (Axis::EeGrip1, Source::GripOpen1),
                (Axis::EeGrip2, Source::GripOpen2),
                (Axis::EeGrip3, Source::GripOpen3),
            ]),
            (Stage::Pick, 1, vec![
                (Axis::Z, Source::GroupGrabZ),
                (Axis::EeGrip1, Source::GripClosed1),
                (Axis::EeGrip2, Source::GripClosed2),
                (Axis::EeGrip3, Source::GripClosed3),
            ]),
        ]
    );
    let all = plan(2, start(0, Stage::All), &prepare, &pick, &transfer, &finite).unwrap();
    let stages: Vec<(Stage, usize)> = all.iter().map(|p| (p.stage, p.step)).collect();
    assert_eq!(
        stages,
        [(Stage::Prepare, 0), (Stage::Pick, 0), (Stage::Pick, 1), (Stage::Transfer, 0), (Stage::Transfer, 1)]
    );
    assert_eq!(all[3].entries, [(Axis::Z, Source::GrabPlusLift)]);
}

#[test]
fn the_first_refused_step_ends_the_plan() {
    let finite = [true; 19];
    let ok = vec![step(&[Action::Open])];
    assert_eq!(
        plan(1, start(1, Stage::Pick), &ok, &ok, &ok, &finite).err(),
        Some(PlanError::GroupNotFound)
    );
    let twice = vec![step(&[Action::Approach, Action::Descend])];
    let waiting = vec![StepShape { actions: vec![Action::Open], wait_ok: false }];
    assert_eq!(
        plan(1, start(0, Stage::All), &ok, &twice, &waiting, &finite).err(),
        Some(PlanError::Step(Stage::Pick, 0, StepFault::Duplicate(Axis::Z)))
    );
    assert_eq!(
        plan(1, start(0, Stage::Transfer), &ok, &twice, &waiting, &finite).err(),
        Some(PlanError::Step(Stage::Transfer, 0, StepFault::Wait))
    );
    let mut not_finite = finite;
    not_finite[5] = false;
    let lift_twice = vec![step(&[Action::Lift, Action::Lift])];
    let e = plan(1, start(0, Stage::Prepare), &lift_twice, &ok, &ok, &not_finite).err().unwrap();
    assert_eq!(e, PlanError::Step(Stage::Prepare, 0, StepFault::NotFinite(Axis::Z)));
    assert_eq!(e.message("上昇"), "上昇のzに有限の数を指定してください");
    assert_eq!(
        PlanError::Step(Stage::Pick, 0, StepFault::Duplicate(Axis::Z)).message("下降"),
        "下降でzへの指令が重複しています"
    );
}
