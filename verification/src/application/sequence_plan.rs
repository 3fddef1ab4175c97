//! The steps of a sequence run: which configured value goes to which axis in
//! each step, checked in the order the steps run. The values themselves are
//! floating point and stay with the caller, who tells which of them are
//! finite; the plan names them by their place in the settings.
use vstd::prelude::*;
use vstd::string::*;
use crate::application::sequence::{Action, Stage, Start};

verus! {

/// An axis a step drives: the arm's `r`, `theta`, `z`, or an end-effector axis.
#[derive(Clone, Copy, Debug, PartialEq, Eq, Structural)]
pub enum Axis {
    R,
    Theta,
    Z,
    EeRotation,
    EeFold,
    EeGrip1,
    EeGrip2,
    EeGrip3,
}

pub open spec fn axis_name(a: Axis) -> Seq<char> {
    match a {
        Axis::R => "r"@,
        Axis::Theta => "theta"@,
        Axis::Z => "z"@,
        Axis::EeRotation => "ee_rotation"@,
        Axis::EeFold => "ee_fold"@,
        Axis::EeGrip1 => "ee_grip_1"@,
        Axis::EeGrip2 => "ee_grip_2"@,
        Axis::EeGrip3 => "ee_grip_3"@,
    }
}

pub open spec fn is_arm(a: Axis) -> bool {
    a == Axis::R || a == Axis::Theta || a == Axis::Z
}

impl Axis {
    /// The axis name in the settings.
    pub fn name(self) -> (n: &'static str)
        ensures
            n@ == axis_name(self),
    {
        match self {
            Axis::R => "r",
            Axis::Theta => "theta",
            Axis::Z => "z",
            Axis::EeRotation => "ee_rotation",
            Axis::EeFold => "ee_fold",
            Axis::EeGrip1 => "ee_grip_1",
            Axis::EeGrip2 => "ee_grip_2",
            Axis::EeGrip3 => "ee_grip_3",
        }
    }

    /// Whether the arm drives it (rather than the end effector).
    pub fn arm(self) -> (b: bool)
        ensures
            b == is_arm(self),
    {
        matches!(self, Axis::R | Axis::Theta | Axis::Z)
    }
}

/// Which configured value a step sends: of the chosen pick group, of the
/// chosen hand-over side, or of the whole settings.
#[derive(Clone, Copy, Debug, PartialEq, Eq, Structural)]
pub enum Source {
    GroupR,
    GroupTheta,
    GroupApproachZ,
    GroupGrabZ,
    GroupRotation,
    /// The group's grab height raised by the small lift.
    GrabPlusLift,
    TravelZ,
    Unfolded,
    Folded,
    GripOpen1,
    GripOpen2,
    GripOpen3,
    GripClosed1,
    GripClosed2,
    GripClosed3,
    DestR,
    DestTheta,
    DestZ,
    DestRotation,
}

/// The number of sources.
pub const SOURCES: usize = 19;

pub open spec fn source_index(s: Source) -> int {
    match s {
        Source::GroupR => 0,
        Source::GroupTheta => 1,
        Source::GroupApproachZ => 2,
        Source::GroupGrabZ => 3,
        Source::GroupRotation => 4,
        Source::GrabPlusLift => 5,
        Source::TravelZ => 6,
        Source::Unfolded => 7,
        Source::Folded => 8,
        Source::GripOpen1 => 9,
        Source::GripOpen2 => 10,
        Source::GripOpen3 => 11,
        Source::GripClosed1 => 12,
        Source::GripClosed2 => 13,
        Source::GripClosed3 => 14,
        Source::DestR => 15,
        Source::DestTheta => 16,
        Source::DestZ => 17,
        Source::DestRotation => 18,
    }
}

impl Source {
    /// Its place among the sources.
    pub fn index(self) -> (i: usize)
        ensures
            i == source_index(self),
            i < SOURCES,
    {
        match self {
            Source::GroupR => 0,
            Source::GroupTheta => 1,
            Source::GroupApproachZ => 2,
            Source::GroupGrabZ => 3,
            Source::GroupRotation => 4,
            Source::GrabPlusLift => 5,
            Source::TravelZ => 6,
            Source::Unfolded => 7,
            Source::Folded => 8,
            Source::GripOpen1 => 9,
            Source::GripOpen2 => 10,
            Source::GripOpen3 => 11,
            Source::GripClosed1 => 12,
            Source::GripClosed2 => 13,
            Source::GripClosed3 => 14,
            Source::DestR => 15,
            Source::DestTheta => 16,
            Source::DestZ => 17,
            Source::DestRotation => 18,
        }
    }
}

/// What one action sends, axis by axis.
pub open spec fn action_entries(a: Action) -> Seq<(Axis, Source)> {
    match a {
        Action::WorkPosition => seq![
            (Axis::R, Source::GroupR),
            (Axis::Theta, Source::GroupTheta),
            (Axis::Z, Source::TravelZ),
        ],
        Action::WorkRotation => seq![(Axis::EeRotation, Source::GroupRotation)],
        Action::Unfold => seq![(Axis::EeFold, Source::Unfolded)],
        Action::Fold => seq![(Axis::EeFold, Source::Folded)],
        Action::Open => seq![
            (Axis::EeGrip1, Source::GripOpen1),
            (Axis::EeGrip2, Source::GripOpen2),
            (Axis::EeGrip3, Source::GripOpen3),
        ],
        Action::Close => seq![
            (Axis::EeGrip1, Source::GripClosed1),
            (Axis::EeGrip2, Source::GripClosed2),
            (Axis::EeGrip3, Source::GripClosed3),
        ],
        Action::Approach => seq![(Axis::Z, Source::GroupApproachZ)],
        Action::Descend => seq![(Axis::Z, Source::GroupGrabZ)],
        Action::Lift => seq![(Axis::Z, Source::GrabPlusLift)],
        Action::TravelHeight => seq![(Axis::Z, Source::TravelZ)],
        Action::BonusPosition => seq![(Axis::R, Source::DestR), (Axis::Theta, Source::DestTheta)],
        Action::BonusRotation => seq![(Axis::EeRotation, Source::DestRotation)],
        Action::BonusHeight => seq![(Axis::Z, Source::DestZ)],
    }
}

fn action_entries_exec(a: Action) -> (v: Vec<(Axis, Source)>)
    ensures
        v@ == action_entries(a),
{
    let v = match a {
        Action::WorkPosition => vec![
            (Axis::R, Source::GroupR),
            (Axis::Theta, Source::GroupTheta),
            (Axis::Z, Source::TravelZ),
        ],
        Action::WorkRotation => vec![(Axis::EeRotation, Source::GroupRotation)],
        Action::Unfold => vec![(Axis::EeFold, Source::Unfolded)],
        Action::Fold => vec![(Axis::EeFold, Source::Folded)],
        Action::Open => vec![
            (Axis::EeGrip1, Source::GripOpen1),
            (Axis::EeGrip2, Source::GripOpen2),
            (Axis::EeGrip3, Source::GripOpen3),
        ],
        Action::Close => vec![
            (Axis::EeGrip1, Source::GripClosed1),
            (Axis::EeGrip2, Source::GripClosed2),
            (Axis::EeGrip3, Source::GripClosed3),
        ],
        Action::Approach => vec![(Axis::Z, Source::GroupApproachZ)],
        Action::Descend => vec![(Axis::Z, Source::GroupGrabZ)],
        Action::Lift => vec![(Axis::Z, Source::GrabPlusLift)],
        Action::TravelHeight => vec![(Axis::Z, Source::TravelZ)],
        Action::BonusPosition => vec![(Axis::R, Source::DestR), (Axis::Theta, Source::DestTheta)],
        Action::BonusRotation => vec![(Axis::EeRotation, Source::DestRotation)],
        Action::BonusHeight => vec![(Axis::Z, Source::DestZ)],
    };
    assert(v@ =~= action_entries(a));
    v
}

/// What a step's actions send, in order.
pub open spec fn step_entries(acts: Seq<Action>) -> Seq<(Axis, Source)>
    decreases acts.len(),
{
    if acts.len() == 0 {
        seq![]
    } else {
        step_entries(acts.drop_last()) + action_entries(acts.last())
    }
}

/// Why a step is refused.
#[derive(Clone, Copy, Debug, PartialEq, Eq, Structural)]
pub enum StepFault {
    /// Its waiting time is not a finite number of at least 0.
    Wait,
    /// The value sent to this axis is not finite.
    NotFinite(Axis),
    /// Two of its actions drive this axis.
    Duplicate(Axis),
}

/// Whether an axis occurs among the first `n` entries.
pub open spec fn axis_in(e: Seq<(Axis, Source)>, a: Axis) -> bool {
    exists|j: int| 0 <= j < e.len() && e[j].0 == a
}

/// The entries checked in order: each value must be finite, and each axis
/// driven once.
pub open spec fn check_entries(e: Seq<(Axis, Source)>, finite: Seq<bool>) -> Option<StepFault>
    decreases e.len(),
{
    if e.len() == 0 {
        None
    } else {
        match check_entries(e.drop_last(), finite) {
            Some(f) => Some(f),
            None => if !finite[source_index(e.last().1)] {
                Some(StepFault::NotFinite(e.last().0))
            } else if axis_in(e.drop_last(), e.last().0) {
                Some(StepFault::Duplicate(e.last().0))
            } else {
                None
            },
        }
    }
}

/// A step as the plan reads it.
pub struct StepShape {
    pub actions: Vec<Action>,
    /// Its waiting time is a finite number of at least 0.
    pub wait_ok: bool,
}

pub open spec fn shape_view(s: StepShape) -> (Seq<Action>, bool) {
    (s.actions@, s.wait_ok)
}

pub open spec fn shapes_view(v: Seq<StepShape>) -> Seq<(Seq<Action>, bool)> {
    v.map_values(|s: StepShape| shape_view(s))
}

/// Why a run cannot be planned.
#[derive(Clone, Copy, Debug, PartialEq, Eq, Structural)]
pub enum PlanError {
    /// No pick group with that index.
    GroupNotFound,
    /// The step at this index of this stage is refused.
    Step(Stage, usize, StepFault),
}

/// The text of each refusal; `step_name` is the refused step's name.
pub open spec fn plan_message(e: PlanError, step_name: Seq<char>) -> Seq<char> {
    match e {
        PlanError::GroupNotFound => "取得グループが見つかりません"@,
        PlanError::Step(_, _, StepFault::Wait) => "工程の待ち時間は0以上で指定してください"@,
        PlanError::Step(_, _, StepFault::NotFinite(a)) => step_name + "の"@ + axis_name(a)
            + "に有限の数を指定してください"@,
        PlanError::Step(_, _, StepFault::Duplicate(a)) => step_name + "で"@ + axis_name(a)
            + "への指令が重複しています"@,
    }
}

/// One planned step: its stage, its index there, and what it sends.
pub struct PlannedStep {
    pub stage: Stage,
    pub step: usize,
    pub entries: Vec<(Axis, Source)>,
}

pub open spec fn planned_view(p: PlannedStep) -> (Stage, usize, Seq<(Axis, Source)>) {
    (p.stage, p.step, p.entries@)
}

/// The steps of one stage, planned in order; the first refused step ends it.
pub open spec fn stage_plan(stage: Stage, steps: Seq<(Seq<Action>, bool)>, finite: Seq<bool>) -> Result<
    Seq<(Stage, usize, Seq<(Axis, Source)>)>,
    PlanError,
>
    decreases steps.len(),
{
    if steps.len() == 0 {
        Ok(seq![])
    } else {
        match stage_plan(stage, steps.drop_last(), finite) {
            Err(e) => Err(e),
            Ok(r) => {
                let i = (steps.len() - 1) as usize;
                let s = steps.last();
                if !s.1 {
                    Err(PlanError::Step(stage, i, StepFault::Wait))
                } else {
                    match check_entries(step_entries(s.0), finite) {
                        Some(f) => Err(PlanError::Step(stage, i, f)),
                        None => Ok(r.push((stage, i, step_entries(s.0)))),
                    }
                }
            },
        }
    }
}

/// Two plans one after the other; the first refusal wins.
pub open spec fn then_plan(
    a: Result<Seq<(Stage, usize, Seq<(Axis, Source)>)>, PlanError>,
    b: Result<Seq<(Stage, usize, Seq<(Axis, Source)>)>, PlanError>,
) -> Result<Seq<(Stage, usize, Seq<(Axis, Source)>)>, PlanError> {
    match a {
        Err(e) => Err(e),
        Ok(x) => match b {
            Err(e) => Err(e),
            Ok(y) => Ok(x + y),
        },
    }
}

/// The run that `start` asks for: the chosen stage, or all three in order.
/// `groups` is the number of pick groups; `finite[source_index(s)]` says
/// whether the value of source `s` (of the chosen group and side) is finite.
pub open spec fn plan_spec(
    groups: nat,
    start: Start,
    prepare: Seq<(Seq<Action>, bool)>,
    pick: Seq<(Seq<Action>, bool)>,
    transfer: Seq<(Seq<Action>, bool)>,
    finite: Seq<bool>,
) -> Result<Seq<(Stage, usize, Seq<(Axis, Source)>)>, PlanError> {
    if start.group >= groups {
        Err(PlanError::GroupNotFound)
    } else {
        match start.stage {
            Stage::Prepare => stage_plan(Stage::Prepare, prepare, finite),
            Stage::Pick => stage_plan(Stage::Pick, pick, finite),
            Stage::Transfer => stage_plan(Stage::Transfer, transfer, finite),
            Stage::All => then_plan(
                then_plan(
                    stage_plan(Stage::Prepare, prepare, finite),
                    stage_plan(Stage::Pick, pick, finite),
                ),
                stage_plan(Stage::Transfer, transfer, finite),
            ),
        }
    }
}

/// The entries of a step's actions, or its first fault.
fn step_plan(acts: &Vec<Action>, finite: &[bool; 19]) -> (r: Result<Vec<(Axis, Source)>, StepFault>)
    ensures
        match (r, check_entries(step_entries(acts@), finite@)) {
            (Ok(v), None) => v@ == step_entries(acts@),
            (Err(f), Some(g)) => f == g,
            _ => false,
        },
{
    let mut out: Vec<(Axis, Source)> = Vec::new();
    let mut i: usize = 0;
    while i < acts.len()
        invariant
            i <= acts@.len(),
            finite@.len() == 19,
            out@ == step_entries(acts@.take(i as int)),
            check_entries(out@, finite@) is None,
        decreases acts@.len() - i,
    {
        assert(acts@.take(i as int + 1).drop_last() =~= acts@.take(i as int));
        let es = action_entries_exec(acts[i]);
        let ghost base = out@;
        proof {
            assert(step_entries(acts@.take(i as int + 1)) == base + es@);
        }
        let mut j: usize = 0;
        while j < es.len()
            invariant
                i < acts@.len(),
                step_entries(acts@.take(i as int + 1)) == base + es@,
                j <= es@.len(),
                finite@.len() == 19,
                out@ == base + es@.take(j as int),
                check_entries(out@, finite@) is None,
            decreases es@.len() - j,
        {
            let (a, s) = es[j];
            let ghost prev = out@;
            if !finite[s.index()] {
                let ghost e = prev.push((a, s));
                assert(e.drop_last() =~= prev);
                assert(e.last() == (a, s));
                proof {
                    assert(es@[j as int] == (a, s));
                    assert((base + es@).take(e.len() as int) =~= e);
                    lemma_prefix_fault(acts@, i as int, e, finite@);
                }
                return Err(StepFault::NotFinite(a));
            }
            let mut k: usize = 0;
            let mut dup = false;
            while k < out.len()
                invariant
                    k <= out@.len(),
                    out@ == prev,
                    dup == exists|t: int| 0 <= t < k && prev[t].0 == a,
                decreases out@.len() - k,
            {
                if out[k].0 == a {
                    dup = true;
                }
                k = k + 1;
            }
            if dup {
                let ghost e = prev.push((a, s));
                assert(e.drop_last() =~= prev);
                assert(e.last() == (a, s));
                assert(axis_in(prev, a));
                proof {
                    assert(es@[j as int] == (a, s));
                    assert((base + es@).take(e.len() as int) =~= e);
                    lemma_prefix_fault(acts@, i as int, e, finite@);
                }
                return Err(StepFault::Duplicate(a));
            }
            out.push((a, s));
            assert(out@.drop_last() =~= prev);
            j = j + 1;
            assert(out@ =~= base + es@.take(j as int));
        }
        assert(es@.take(es@.len() as int) =~= es@);
        i = i + 1;
    }
    assert(acts@.take(acts@.len() as int) =~= acts@);
    Ok(out)
}

proof fn lemma_entries_prefix(acts: Seq<Action>, m: int)
    requires
        0 <= m <= acts.len(),
    ensures
        step_entries(acts.take(m)).len() <= step_entries(acts).len(),
        step_entries(acts).take(step_entries(acts.take(m)).len() as int) == step_entries(
            acts.take(m),
        ),
    decreases acts.len() - m,
{
    if m < acts.len() {
        lemma_entries_prefix(acts, m + 1);
        let a = step_entries(acts.take(m));
        let b = step_entries(acts.take(m + 1));
        assert(acts.take(m + 1).drop_last() =~= acts.take(m));
        assert(b == a + action_entries(acts[m]));
        assert(step_entries(acts).take(a.len() as int) =~= b.take(a.len() as int));
        assert(b.take(a.len() as int) =~= a);
    } else {
        assert(acts.take(m) =~= acts);
        assert(step_entries(acts).take(step_entries(acts).len() as int) =~= step_entries(acts));
    }
}

/// A fault among the entries of the first `i + 1` actions is the step's fault.
proof fn lemma_prefix_fault(acts: Seq<Action>, i: int, e: Seq<(Axis, Source)>, finite: Seq<bool>)
    requires
        0 <= i < acts.len(),
        check_entries(e, finite) is Some,
        e.len() <= step_entries(acts.take(i + 1)).len(),
        step_entries(acts.take(i + 1)).take(e.len() as int) == e,
    ensures
        check_entries(step_entries(acts), finite) == check_entries(e, finite),
{
    lemma_entries_prefix(acts, i + 1);
    let w = step_entries(acts);
    let p = step_entries(acts.take(i + 1));
    assert(w.take(e.len() as int) =~= p.take(e.len() as int));
    lemma_fault_persists(w, e.len() as int, finite);
}

proof fn lemma_fault_persists(e: Seq<(Axis, Source)>, k: int, finite: Seq<bool>)
    requires
        0 <= k <= e.len(),
        check_entries(e.take(k), finite) is Some,
    ensures
        check_entries(e, finite) == check_entries(e.take(k), finite),
    decreases e.len() - k,
{
    if k < e.len() {
        assert(e.take(k + 1).drop_last() =~= e.take(k));
        lemma_fault_persists(e, k + 1, finite);
    } else {
        assert(e.take(k) =~= e);
    }
}

pub open spec fn planned_views(v: Seq<PlannedStep>) -> Seq<(Stage, usize, Seq<(Axis, Source)>)> {
    v.map_values(|p: PlannedStep| planned_view(p))
}

proof fn lemma_stage_err_persists(
    stage: Stage,
    steps: Seq<(Seq<Action>, bool)>,
    k: int,
    finite: Seq<bool>,
)
    requires
        0 <= k <= steps.len(),
        stage_plan(stage, steps.take(k), finite) is Err,
    ensures
        stage_plan(stage, steps, finite) == stage_plan(stage, steps.take(k), finite),
    decreases steps.len() - k,
{
    if k < steps.len() {
        assert(steps.take(k + 1).drop_last() =~= steps.take(k));
        lemma_stage_err_persists(stage, steps, k + 1, finite);
    } else {
        assert(steps.take(k) =~= steps);
    }
}

/// Plans the steps of one stage after those already in `out`.
fn stage_plan_exec(
    stage: Stage,
    steps: &Vec<StepShape>,
    finite: &[bool; 19],
    out: &mut Vec<PlannedStep>,
) -> (r: Result<(), PlanError>)
    ensures
        match (r, stage_plan(stage, shapes_view(steps@), finite@)) {
            (Ok(()), Ok(x)) => planned_views(final(out)@) == planned_views(old(out)@) + x,
            (Err(e), Err(f)) => e == f,
            _ => false,
        },
{
    let ghost all = shapes_view(steps@);
    let ghost start = planned_views(out@);
    let mut i: usize = 0;
    assert(all.take(0) =~= Seq::<(Seq<Action>, bool)>::empty());
    assert(planned_views(out@) =~= start + Seq::<(Stage, usize, Seq<(Axis, Source)>)>::empty());
    while i < steps.len()
        invariant
            i <= steps@.len(),
            all == shapes_view(steps@),
            all.len() == steps@.len(),
            stage_plan(stage, all.take(i as int), finite@) is Ok,
            planned_views(out@) == start + stage_plan(stage, all.take(i as int), finite@)->Ok_0,
        decreases steps@.len() - i,
    {
        assert(all.take(i as int + 1).drop_last() =~= all.take(i as int));
        assert(all.take(i as int + 1).last() == shape_view(steps@[i as int]));
        let step = &steps[i];
        if !step.wait_ok {
            proof {
                lemma_stage_err_persists(stage, all, i as int + 1, finite@);
            }
            return Err(PlanError::Step(stage, i, StepFault::Wait));
        }
        match step_plan(&step.actions, finite) {
            Err(f) => {
                proof {
                    lemma_stage_err_persists(stage, all, i as int + 1, finite@);
                }
                return Err(PlanError::Step(stage, i, f));
            },
            Ok(entries) => {
                let ghost before = planned_views(out@);
                out.push(PlannedStep { stage, step: i, entries });
                assert(planned_views(out@) =~= before.push((stage, i, step_entries(step.actions@))));
            },
        }
        i = i + 1;
    }
    assert(all.take(steps@.len() as int) =~= all);
    Ok(())
}

/// Plans the run that `start` asks for (see `plan_spec`).
pub fn plan(
    groups: usize,
    start: Start,
    prepare: &Vec<StepShape>,
    pick: &Vec<StepShape>,
    transfer: &Vec<StepShape>,
    finite: &[bool; 19],
) -> (r: Result<Vec<PlannedStep>, PlanError>)
    ensures
        match (
            r,
            plan_spec(
                groups as nat,
                start,
                shapes_view(prepare@),
                shapes_view(pick@),
                shapes_view(transfer@),
                finite@,
            ),
        ) {
            (Ok(v), Ok(x)) => planned_views(v@) == x,
            (Err(e), Err(f)) => e == f,
            _ => false,
        },
{
    if start.group >= groups {
        return Err(PlanError::GroupNotFound);
    }
    let mut out: Vec<PlannedStep> = Vec::new();
    assert(planned_views(out@) =~= Seq::<(Stage, usize, Seq<(Axis, Source)>)>::empty());
    match start.stage {
        Stage::Prepare => {
            stage_plan_exec(Stage::Prepare, prepare, finite, &mut out)?;
        },
        Stage::Pick => {
            stage_plan_exec(Stage::Pick, pick, finite, &mut out)?;
        },
        Stage::Transfer => {
            stage_plan_exec(Stage::Transfer, transfer, finite, &mut out)?;
        },
        Stage::All => {
            stage_plan_exec(Stage::Prepare, prepare, finite, &mut out)?;
            stage_plan_exec(Stage::Pick, pick, finite, &mut out)?;
            stage_plan_exec(Stage::Transfer, transfer, finite, &mut out)?;
        },
    }
    Ok(out)
}

impl PlanError {
    /// The message shown to the operator; `step_name` names the refused step.
    pub fn message(self, step_name: &str) -> (text: String)
        ensures
            text@ == plan_message(self, step_name@),
    {
        match self {
            PlanError::GroupNotFound => String::from_str("取得グループが見つかりません"),
            PlanError::Step(_, _, StepFault::Wait) => String::from_str(
                "工程の待ち時間は0以上で指定してください",
            ),
            PlanError::Step(_, _, StepFault::NotFinite(a)) => {
                let mut t = String::from_str(step_name);
                t.append("の");
                t.append(a.name());
                t.append("に有限の数を指定してください");
                t
            },
            PlanError::Step(_, _, StepFault::Duplicate(a)) => {
                let mut t = String::from_str(step_name);
                t.append("で");
                t.append(a.name());
                t.append("への指令が重複しています");
                t
            },
        }
    }
}

/// The kind of value an axis takes: each configured value belongs to one axis.
pub open spec fn value_axis(s: Source) -> Axis {
    match s {
        Source::GroupR | Source::DestR => Axis::R,
        Source::GroupTheta | Source::DestTheta => Axis::Theta,
        Source::GroupApproachZ | Source::GroupGrabZ | Source::GrabPlusLift | Source::TravelZ
        | Source::DestZ => Axis::Z,
        Source::GroupRotation | Source::DestRotation => Axis::EeRotation,
        Source::Unfolded | Source::Folded => Axis::EeFold,
        Source::GripOpen1 | Source::GripClosed1 => Axis::EeGrip1,
        Source::GripOpen2 | Source::GripClosed2 => Axis::EeGrip2,
        Source::GripOpen3 | Source::GripClosed3 => Axis::EeGrip3,
    }
}

/// Whether an entry sends a value to this axis from this source.
pub open spec fn sends(e: Seq<(Axis, Source)>, a: Axis, s: Source) -> bool {
    e.contains((a, s))
}

proof fn lemma_entries_split(acts: Seq<Action>, a: Axis, s: Source)
    requires
        acts.len() > 0,
    ensures
        sends(step_entries(acts), a, s) <==> (sends(step_entries(acts.drop_last()), a, s) || sends(
            action_entries(acts.last()),
            a,
            s,
        )),
{
    let x = step_entries(acts.drop_last());
    let y = action_entries(acts.last());
    assert(step_entries(acts) == x + y);
    if (x + y).contains((a, s)) {
        let k = choose|k: int| 0 <= k < (x + y).len() && (x + y)[k] == (a, s);
        if k < x.len() {
            assert(x[k] == (a, s));
        } else {
            assert(y[k - x.len()] == (a, s));
        }
    }
    if x.contains((a, s)) {
        let k = choose|k: int| 0 <= k < x.len() && x[k] == (a, s);
        assert((x + y)[k] == (a, s));
    }
    if y.contains((a, s)) {
        let k = choose|k: int| 0 <= k < y.len() && y[k] == (a, s);
        assert((x + y)[x.len() + k] == (a, s));
    }
}

proof fn lemma_contains_split(acts: Seq<Action>, b: Action)
    requires
        acts.len() > 0,
    ensures
        acts.contains(b) <==> (acts.drop_last().contains(b) || acts.last() == b),
{
    let t = acts.drop_last();
    if acts.contains(b) {
        let k = choose|k: int| 0 <= k < acts.len() && acts[k] == b;
        if k < t.len() {
            assert(t[k] == b);
        }
    }
    if t.contains(b) {
        let k = choose|k: int| 0 <= k < t.len() && t[k] == b;
        assert(acts[k] == b);
    }
    if acts.last() == b {
        assert(acts[acts.len() - 1] == b);
    }
}

/// What each action of a step drives, over every step: every value goes to
/// the axis it belongs to; the fold action sends the folded position to
/// `ee_fold` and the unfold action the unfolded one; opening and closing
/// send the open and closed grip positions; only the lift sends the grab
/// height raised by the lift, and only the hand-over actions send values of
/// the hand-over side.
pub proof fn lemma_step_values(acts: Seq<Action>)
    ensures
        forall|k: int|
            0 <= k < step_entries(acts).len() ==> value_axis(#[trigger] step_entries(acts)[k].1)
                == step_entries(acts)[k].0,
        sends(step_entries(acts), Axis::EeFold, Source::Folded) <==> acts.contains(Action::Fold),
        sends(step_entries(acts), Axis::EeFold, Source::Unfolded) <==> acts.contains(Action::Unfold),
        sends(step_entries(acts), Axis::EeGrip1, Source::GripOpen1) <==> acts.contains(Action::Open),
        sends(step_entries(acts), Axis::EeGrip2, Source::GripOpen2) <==> acts.contains(Action::Open),
        sends(step_entries(acts), Axis::EeGrip3, Source::GripOpen3) <==> acts.contains(Action::Open),
        sends(step_entries(acts), Axis::EeGrip1, Source::GripClosed1) <==> acts.contains(
            Action::Close,
        ),
        sends(step_entries(acts), Axis::EeGrip2, Source::GripClosed2) <==> acts.contains(
            Action::Close,
        ),
        sends(step_entries(acts), Axis::EeGrip3, Source::GripClosed3) <==> acts.contains(
            Action::Close,
        ),
        sends(step_entries(acts), Axis::Z, Source::GrabPlusLift) <==> acts.contains(Action::Lift),
        sends(step_entries(acts), Axis::Z, Source::GroupGrabZ) <==> acts.contains(Action::Descend),
        sends(step_entries(acts), Axis::Z, Source::GroupApproachZ) <==> acts.contains(
            Action::Approach,
        ),
        sends(step_entries(acts), Axis::Z, Source::DestZ) <==> acts.contains(Action::BonusHeight),
        sends(step_entries(acts), Axis::EeRotation, Source::GroupRotation) <==> acts.contains(
            Action::WorkRotation,
        ),
        sends(step_entries(acts), Axis::EeRotation, Source::DestRotation) <==> acts.contains(
            Action::BonusRotation,
        ),
        sends(step_entries(acts), Axis::R, Source::GroupR) <==> acts.contains(Action::WorkPosition),
        sends(step_entries(acts), Axis::Theta, Source::GroupTheta) <==> acts.contains(
            Action::WorkPosition,
        ),
        sends(step_entries(acts), Axis::R, Source::DestR) <==> acts.contains(Action::BonusPosition),
        sends(step_entries(acts), Axis::Theta, Source::DestTheta) <==> acts.contains(
            Action::BonusPosition,
        ),
        sends(step_entries(acts), Axis::Z, Source::TravelZ) <==> (acts.contains(Action::WorkPosition)
            || acts.contains(Action::TravelHeight)),
    decreases acts.len(),
{
    if acts.len() == 0 {
        assert(step_entries(acts) =~= Seq::<(Axis, Source)>::empty());
    } else {
        let t = acts.drop_last();
        let x = step_entries(t);
        let y = action_entries(acts.last());
        lemma_step_values(t);
        assert(step_entries(acts) == x + y);
        assert forall|k: int| 0 <= k < (x + y).len() implies value_axis(#[trigger] (x + y)[k].1)
            == (x + y)[k].0 by {
            if k < x.len() {
                assert((x + y)[k] == x[k]);
            } else {
                assert((x + y)[k] == y[k - x.len()]);
            }
        }
        lemma_entries_split(acts, Axis::EeFold, Source::Folded);
        lemma_entries_split(acts, Axis::EeFold, Source::Unfolded);
        lemma_entries_split(acts, Axis::EeGrip1, Source::GripOpen1);
        lemma_entries_split(acts, Axis::EeGrip2, Source::GripOpen2);
        lemma_entries_split(acts, Axis::EeGrip3, Source::GripOpen3);
        lemma_entries_split(acts, Axis::EeGrip1, Source::GripClosed1);
        lemma_entries_split(acts, Axis::EeGrip2, Source::GripClosed2);
        lemma_entries_split(acts, Axis::EeGrip3, Source::GripClosed3);
        lemma_entries_split(acts, Axis::Z, Source::GrabPlusLift);
        lemma_entries_split(acts, Axis::Z, Source::GroupGrabZ);
        lemma_entries_split(acts, Axis::Z, Source::GroupApproachZ);
        lemma_entries_split(acts, Axis::Z, Source::DestZ);
        lemma_entries_split(acts, Axis::EeRotation, Source::GroupRotation);
        lemma_entries_split(acts, Axis::EeRotation, Source::DestRotation);
        lemma_entries_split(acts, Axis::R, Source::GroupR);
        lemma_entries_split(acts, Axis::Theta, Source::GroupTheta);
        lemma_entries_split(acts, Axis::R, Source::DestR);
        lemma_entries_split(acts, Axis::Theta, Source::DestTheta);
        lemma_entries_split(acts, Axis::Z, Source::TravelZ);
        lemma_contains_split(acts, Action::Fold);
        lemma_contains_split(acts, Action::Unfold);
        lemma_contains_split(acts, Action::Open);
        lemma_contains_split(acts, Action::Close);
        lemma_contains_split(acts, Action::Lift);
        lemma_contains_split(acts, Action::Descend);
        lemma_contains_split(acts, Action::Approach);
        lemma_contains_split(acts, Action::BonusHeight);
        lemma_contains_split(acts, Action::WorkRotation);
        lemma_contains_split(acts, Action::BonusRotation);
        lemma_contains_split(acts, Action::WorkPosition);
        lemma_contains_split(acts, Action::BonusPosition);
        lemma_contains_split(acts, Action::TravelHeight);
        lemma_action_values(acts.last());
    }
}

proof fn lemma_action_values(a: Action)
    ensures
        sends(action_entries(a), Axis::EeFold, Source::Folded) <==> a == Action::Fold,
        sends(action_entries(a), Axis::EeFold, Source::Unfolded) <==> a == Action::Unfold,
        sends(action_entries(a), Axis::EeGrip1, Source::GripOpen1) <==> a == Action::Open,
        sends(action_entries(a), Axis::EeGrip2, Source::GripOpen2) <==> a == Action::Open,
        sends(action_entries(a), Axis::EeGrip3, Source::GripOpen3) <==> a == Action::Open,
        sends(action_entries(a), Axis::EeGrip1, Source::GripClosed1) <==> a == Action::Close,
        sends(action_entries(a), Axis::EeGrip2, Source::GripClosed2) <==> a == Action::Close,
        sends(action_entries(a), Axis::EeGrip3, Source::GripClosed3) <==> a == Action::Close,
        sends(action_entries(a), Axis::Z, Source::GrabPlusLift) <==> a == Action::Lift,
        sends(action_entries(a), Axis::Z, Source::GroupGrabZ) <==> a == Action::Descend,
        sends(action_entries(a), Axis::Z, Source::GroupApproachZ) <==> a == Action::Approach,
        sends(action_entries(a), Axis::Z, Source::DestZ) <==> a == Action::BonusHeight,
        sends(action_entries(a), Axis::EeRotation, Source::GroupRotation) <==> a
            == Action::WorkRotation,
        sends(action_entries(a), Axis::EeRotation, Source::DestRotation) <==> a
            == Action::BonusRotation,
        sends(action_entries(a), Axis::R, Source::GroupR) <==> a == Action::WorkPosition,
        sends(action_entries(a), Axis::Theta, Source::GroupTheta) <==> a == Action::WorkPosition,
        sends(action_entries(a), Axis::R, Source::DestR) <==> a == Action::BonusPosition,
        sends(action_entries(a), Axis::Theta, Source::DestTheta) <==> a == Action::BonusPosition,
        sends(action_entries(a), Axis::Z, Source::TravelZ) <==> (a == Action::WorkPosition || a
            == Action::TravelHeight),
{
    let e = action_entries(a);
    assert forall|ax: Axis, s: Source| e.contains((ax, s)) <==> exists|k: int|
        0 <= k < e.len() && e[k] == (ax, s) by {}
    match a {
        Action::WorkPosition => {
            assert(e[0] == (Axis::R, Source::GroupR));
            assert(e[1] == (Axis::Theta, Source::GroupTheta));
            assert(e[2] == (Axis::Z, Source::TravelZ));
        },
        Action::Open => {
            assert(e[0] == (Axis::EeGrip1, Source::GripOpen1));
            assert(e[1] == (Axis::EeGrip2, Source::GripOpen2));
            assert(e[2] == (Axis::EeGrip3, Source::GripOpen3));
        },
        Action::Close => {
            assert(e[0] == (Axis::EeGrip1, Source::GripClosed1));
            assert(e[1] == (Axis::EeGrip2, Source::GripClosed2));
            assert(e[2] == (Axis::EeGrip3, Source::GripClosed3));
        },
        Action::BonusPosition => {
            assert(e[0] == (Axis::R, Source::DestR));
            assert(e[1] == (Axis::Theta, Source::DestTheta));
        },
        _ => {
            assert(e[0] == e[0]);
        },
    }
}

/// The steps configured for a stage (the three stages of a full run are
/// planned from their own lists).
pub open spec fn stage_steps(
    stage: Stage,
    prepare: Seq<(Seq<Action>, bool)>,
    pick: Seq<(Seq<Action>, bool)>,
    transfer: Seq<(Seq<Action>, bool)>,
) -> Seq<(Seq<Action>, bool)> {
    match stage {
        Stage::Prepare => prepare,
        Stage::Pick => pick,
        _ => transfer,
    }
}

/// A planned step sends exactly what the actions of the configured step it
/// names send.
pub open spec fn faithful(
    x: Seq<(Stage, usize, Seq<(Axis, Source)>)>,
    prepare: Seq<(Seq<Action>, bool)>,
    pick: Seq<(Seq<Action>, bool)>,
    transfer: Seq<(Seq<Action>, bool)>,
) -> bool {
    forall|k: int|
        0 <= k < x.len() ==> {
            let st = stage_steps((#[trigger] x[k]).0, prepare, pick, transfer);
            &&& x[k].0 != Stage::All
            &&& (x[k].1 as int) < st.len()
            &&& x[k].2 == step_entries(st[x[k].1 as int].0)
        }
}

proof fn lemma_stage_faithful(
    stage: Stage,
    steps: Seq<(Seq<Action>, bool)>,
    finite: Seq<bool>,
    prepare: Seq<(Seq<Action>, bool)>,
    pick: Seq<(Seq<Action>, bool)>,
    transfer: Seq<(Seq<Action>, bool)>,
)
    requires
        stage != Stage::All,
        stage_steps(stage, prepare, pick, transfer) == steps,
        steps.len() <= usize::MAX,
    ensures
        stage_plan(stage, steps, finite) matches Ok(x) ==> faithful(x, prepare, pick, transfer),
    decreases steps.len(),
{
    lemma_stage_faithful_prefix(stage, steps, steps.len() as int, finite, prepare, pick, transfer);
}

proof fn lemma_stage_faithful_prefix(
    stage: Stage,
    steps: Seq<(Seq<Action>, bool)>,
    n: int,
    finite: Seq<bool>,
    prepare: Seq<(Seq<Action>, bool)>,
    pick: Seq<(Seq<Action>, bool)>,
    transfer: Seq<(Seq<Action>, bool)>,
)
    requires
        stage != Stage::All,
        stage_steps(stage, prepare, pick, transfer) == steps,
        0 <= n <= steps.len(),
        steps.len() <= usize::MAX,
    ensures
        stage_plan(stage, steps.take(n), finite) matches Ok(x) ==> faithful(
            x,
            prepare,
            pick,
            transfer,
        ),
        stage_plan(stage, steps.take(n), finite) matches Ok(x) ==> x.len() == n,
        n == steps.len() ==> steps.take(n) == steps,
    decreases n,
{
    assert(n == steps.len() ==> steps.take(n) =~= steps);
    if n > 0 {
        lemma_stage_faithful_prefix(stage, steps, n - 1, finite, prepare, pick, transfer);
        let u = steps.take(n);
        assert(u.drop_last() =~= steps.take(n - 1));
        assert(u.last() == steps[n - 1]);
        match stage_plan(stage, u, finite) {
            Ok(x) => {
                let r = stage_plan(stage, steps.take(n - 1), finite)->Ok_0;
                assert(x == r.push((stage, (n - 1) as usize, step_entries(steps[n - 1].0))));
                assert forall|k: int| 0 <= k < x.len() implies {
                    let st = stage_steps((#[trigger] x[k]).0, prepare, pick, transfer);
                    &&& x[k].0 != Stage::All
                    &&& (x[k].1 as int) < st.len()
                    &&& x[k].2 == step_entries(st[x[k].1 as int].0)
                } by {
                    if k < r.len() {
                        assert(x[k] == r[k]);
                    }
                }
            },
            Err(_) => {},
        }
    }
}

proof fn lemma_then_faithful(
    a: Result<Seq<(Stage, usize, Seq<(Axis, Source)>)>, PlanError>,
    b: Result<Seq<(Stage, usize, Seq<(Axis, Source)>)>, PlanError>,
    prepare: Seq<(Seq<Action>, bool)>,
    pick: Seq<(Seq<Action>, bool)>,
    transfer: Seq<(Seq<Action>, bool)>,
)
    requires
        a matches Ok(x) ==> faithful(x, prepare, pick, transfer),
        b matches Ok(y) ==> faithful(y, prepare, pick, transfer),
    ensures
        then_plan(a, b) matches Ok(z) ==> faithful(z, prepare, pick, transfer),
{
    if let (Ok(x), Ok(y)) = (a, b) {
        let z = x + y;
        assert forall|k: int| 0 <= k < z.len() implies {
            let st = stage_steps((#[trigger] z[k]).0, prepare, pick, transfer);
            &&& z[k].0 != Stage::All
            &&& (z[k].1 as int) < st.len()
            &&& z[k].2 == step_entries(st[z[k].1 as int].0)
        } by {
            if k < x.len() {
                assert(z[k] == x[k]);
            } else {
                assert(z[k] == y[k - x.len()]);
            }
        }
    }
}

/// In every plan, each planned step sends exactly what its configured
/// actions send (so `lemma_step_values` tells what each action drives).
pub proof fn lemma_plan_faithful(
    groups: nat,
    start: Start,
    prepare: Seq<(Seq<Action>, bool)>,
    pick: Seq<(Seq<Action>, bool)>,
    transfer: Seq<(Seq<Action>, bool)>,
    finite: Seq<bool>,
)
    requires
        prepare.len() <= usize::MAX,
        pick.len() <= usize::MAX,
        transfer.len() <= usize::MAX,
    ensures
        plan_spec(groups, start, prepare, pick, transfer, finite) matches Ok(x) ==> faithful(
            x,
            prepare,
            pick,
            transfer,
        ),
{
    lemma_stage_faithful(Stage::Prepare, prepare, finite, prepare, pick, transfer);
    lemma_stage_faithful(Stage::Pick, pick, finite, prepare, pick, transfer);
    lemma_stage_faithful(Stage::Transfer, transfer, finite, prepare, pick, transfer);
    lemma_then_faithful(
        stage_plan(Stage::Prepare, prepare, finite),
        stage_plan(Stage::Pick, pick, finite),
        prepare,
        pick,
        transfer,
    );
    lemma_then_faithful(
        then_plan(stage_plan(Stage::Prepare, prepare, finite), stage_plan(Stage::Pick, pick, finite)),
        stage_plan(Stage::Transfer, transfer, finite),
        prepare,
        pick,
        transfer,
    );
}

} // verus!
