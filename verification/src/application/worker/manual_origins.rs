//! Setting the origins by hand on the preparation screen: r and z pushed to
//! their limit switches, θ recorded facing the front. These are the checks
//! before each step and the test for the end.
use vstd::prelude::*;
use vstd::string::*;
use crate::application::app_state::PreparationPhase;
use crate::application::worker::readiness::{
    MachineCheck, ReadyError, axes_ready, axes_ready_spec, check_wf, ready_message,
};

verus! {

/// What the manual origin setting reads from the worker.
#[derive(Clone, Copy, Debug)]
pub struct OriginContext {
    pub court_chosen: bool,
    pub phase: PreparationPhase,
    /// An automatic operator holds the right to operate.
    pub ai_active: bool,
    /// No homing runs or waits.
    pub homing_idle: bool,
    /// A sequence runs.
    pub sequence: bool,
    /// A servo position is being taught.
    pub teaching: bool,
    /// The r axis has a limit switch.
    pub r_limit: bool,
    /// The z axis has a limit switch.
    pub z_limit: bool,
    /// θ is in degrees, with its origin at 0 inside its range.
    pub theta_front: bool,
    /// The manual origin setting is on.
    pub manual_origins: bool,
    /// The last report shows every output released: not driving, no axis held.
    pub released: bool,
}

/// Why the origins cannot be set by hand now.
#[derive(Clone, Copy, Debug, PartialEq, Eq, Structural)]
pub enum OriginError {
    ChooseCourt,
    StopFirst,
    Machine(ReadyError),
    RLimit,
    ZLimit,
    ThetaFront,
    AwaitRelease,
}

pub open spec fn origin_message(e: OriginError) -> Seq<char> {
    match e {
        OriginError::ChooseCourt => "赤コートか青コートを選んでください"@,
        OriginError::StopFirst => "準備画面で操作を停止してください"@,
        OriginError::Machine(r) => ready_message(r),
        OriginError::RLimit => "rのリミットスイッチを設定してください"@,
        OriginError::ZLimit => "zのリミットスイッチを設定してください"@,
        OriginError::ThetaFront => "θの単位をdeg、原点座標を0に設定してください"@,
        OriginError::AwaitRelease => "全トルク解除の応答を待っています"@,
    }
}

impl OriginError {
    /// The message shown to the operator.
    pub fn message(self) -> (text: String)
        ensures
            text@ == origin_message(self),
    {
        match self {
            OriginError::ChooseCourt => String::from_str("赤コートか青コートを選んでください"),
            OriginError::StopFirst => String::from_str("準備画面で操作を停止してください"),
            OriginError::Machine(r) => r.message(),
            OriginError::RLimit => String::from_str("rのリミットスイッチを設定してください"),
            OriginError::ZLimit => String::from_str("zのリミットスイッチを設定してください"),
            OriginError::ThetaFront => String::from_str("θの単位をdeg、原点座標を0に設定してください"),
            OriginError::AwaitRelease => String::from_str("全トルク解除の応答を待っています"),
        }
    }
}

/// Whether nothing else uses the machine on the preparation screen.
pub open spec fn quiet(c: OriginContext) -> bool {
    c.phase == PreparationPhase::Setting && !c.ai_active && c.homing_idle && !c.sequence
        && !c.teaching
}

/// Whether the machine is quiet and every output released, so that the
/// origins may be taken by hand.
pub open spec fn origins_idle_spec(c: OriginContext) -> bool {
    quiet(c) && c.released
}

/// Whether the machine is quiet and every output released.
pub fn manual_origins_idle(c: OriginContext) -> (b: bool)
    ensures
        b == origins_idle_spec(c),
{
    c.phase == PreparationPhase::Setting && !c.ai_active && c.homing_idle && !c.sequence
        && !c.teaching && c.released
}

/// The first reason that the origins cannot be set by hand, in the order checked.
pub open spec fn origin_ready_spec(c: OriginContext, m: MachineCheck) -> Result<(), OriginError> {
    if !c.court_chosen {
        Err(OriginError::ChooseCourt)
    } else if !quiet(c) {
        Err(OriginError::StopFirst)
    } else if axes_ready_spec(m, false) is Err {
        Err(OriginError::Machine(axes_ready_spec(m, false)->Err_0))
    } else if !c.r_limit {
        Err(OriginError::RLimit)
    } else if !c.z_limit {
        Err(OriginError::ZLimit)
    } else if !c.theta_front {
        Err(OriginError::ThetaFront)
    } else if c.manual_origins && !origins_idle_spec(c) {
        Err(OriginError::AwaitRelease)
    } else {
        Ok(())
    }
}

/// Checks that the origins may be set by hand; the axes need not have their
/// origins yet.
pub fn manual_origin_ready(c: OriginContext, m: &MachineCheck) -> (r: Result<(), OriginError>)
    requires
        check_wf(*m),
    ensures
        r == origin_ready_spec(c, *m),
{
    if !c.court_chosen {
        return Err(OriginError::ChooseCourt);
    }
    if !(c.phase == PreparationPhase::Setting && !c.ai_active && c.homing_idle && !c.sequence
        && !c.teaching) {
        return Err(OriginError::StopFirst);
    }
    match axes_ready(m, false) {
        Err(e) => {
            return Err(OriginError::Machine(e));
        },
        Ok(()) => {},
    }
    if !c.r_limit {
        return Err(OriginError::RLimit);
    }
    if !c.z_limit {
        return Err(OriginError::ZLimit);
    }
    if !c.theta_front {
        return Err(OriginError::ThetaFront);
    }
    if c.manual_origins && !manual_origins_idle(c) {
        return Err(OriginError::AwaitRelease);
    }
    Ok(())
}

/// Whether the manual origin setting ends now: it is on, the guide shows,
/// the checks pass and every axis has its origin.
pub fn manual_origins_done(
    c: OriginContext,
    m: &MachineCheck,
    guide_shown: bool,
    origins_captured: bool,
) -> (b: bool)
    requires
        check_wf(*m),
    ensures
        b == (c.manual_origins && guide_shown && origin_ready_spec(c, *m) is Ok && origins_captured),
{
    if !c.manual_origins || !guide_shown {
        return false;
    }
    match manual_origin_ready(c, m) {
        Err(_) => false,
        Ok(()) => origins_captured,
    }
}

/// While the manual origin setting is on, no origin is taken before the
/// board reports every output released.
pub proof fn lemma_origins_wait_for_release(c: OriginContext, m: MachineCheck)
    requires
        c.manual_origins,
        !c.released,
    ensures
        origin_ready_spec(c, m) is Err,
{
}

} // verus!
