//! The match preparation: the checks before waiting for the start, and how
//! the preparation requests move between its phases. Only a person switches
//! the preparation; what each switch does to the machine is the worker's.
use vstd::prelude::*;
use vstd::string::*;
use crate::application::app_state::{Court, PreparationPhase};
use crate::application::worker::readiness::{ReadyError, ready_message};
use crate::text::{chars_eq, chars_of};

verus! {

/// What the readiness check reads from the worker.
#[derive(Clone, Copy, Debug)]
pub struct Readiness {
    pub court_chosen: bool,
    pub emergency: bool,
    /// Origin adjustment is on.
    pub adjustment: bool,
    /// An automatic operator holds the right to operate.
    pub ai_active: bool,
    /// Homing or a sequence runs.
    pub automatic: bool,
    /// The individual tests or the servo management are in use.
    pub tools_busy: bool,
    /// Driving is on or requested.
    pub moving: bool,
    /// Whether the machine may drive, and if not, why.
    pub machine: Result<(), ReadyError>,
    /// Screen driving, the simulator, or a connected gamepad.
    pub control_available: bool,
    /// Sticks centred and no button held.
    pub input_released: bool,
}

/// Why the preparation cannot go on.
#[derive(Clone, Copy, Debug, PartialEq, Eq, Structural)]
pub enum PreparationError {
    ChooseCourt,
    ResetEmergency,
    EndAdjustment,
    ReturnToPeople,
    WaitForMotion,
    EndTools,
    StopFirst,
    /// The machine may not drive.
    Machine(ReadyError),
    ConnectGamepad,
    ReleaseInput,
    GuideFromScreen,
    GuideStateRequired,
    PeopleOnly,
    StopBeforeCourt,
    BackToSetting,
    WaitFirst,
    Unknown,
}

/// The text of each refusal.
pub open spec fn preparation_message(e: PreparationError) -> Seq<char> {
    match e {
        PreparationError::ChooseCourt => "赤コートか青コートを選んでください"@,
        PreparationError::ResetEmergency => "ソフト緊停を解除し、機体を再確認してください"@,
        PreparationError::EndAdjustment => "原点調整を終了してください"@,
        PreparationError::ReturnToPeople => "人間の操作へ戻してください"@,
        PreparationError::WaitForMotion => "準備動作の完了を待ってください"@,
        PreparationError::EndTools => "個別テスト・STS管理を終了してください"@,
        PreparationError::StopFirst => "停止・保持してから開始姿勢を確認してください"@,
        PreparationError::Machine(r) => ready_message(r),
        PreparationError::ConnectGamepad => "DualSenseを接続してください"@,
        PreparationError::ReleaseInput => "スティックとボタンを離してください"@,
        PreparationError::GuideFromScreen => "ガイドの表示切替は画面から行ってください"@,
        PreparationError::GuideStateRequired => "ガイドの表示状態が必要です"@,
        PreparationError::PeopleOnly => "準備の切替は人間が画面またはコントローラから行ってください"@,
        PreparationError::StopBeforeCourt => "準備画面で全操作を停止してからコートを変更してください"@,
        PreparationError::BackToSetting => "準備画面へ戻って再確認してください"@,
        PreparationError::WaitFirst => "準備完了を確認して開始待ちへ移ってください"@,
        PreparationError::Unknown => "不明な準備操作です"@,
    }
}

impl PreparationError {
    /// The message shown to the operator.
    pub fn message(self) -> (text: String)
        ensures
            text@ == preparation_message(self),
    {
        match self {
            PreparationError::ChooseCourt => String::from_str("赤コートか青コートを選んでください"),
            PreparationError::ResetEmergency => String::from_str("ソフト緊停を解除し、機体を再確認してください"),
            PreparationError::EndAdjustment => String::from_str("原点調整を終了してください"),
            PreparationError::ReturnToPeople => String::from_str("人間の操作へ戻してください"),
            PreparationError::WaitForMotion => String::from_str("準備動作の完了を待ってください"),
            PreparationError::EndTools => String::from_str("個別テスト・STS管理を終了してください"),
            PreparationError::StopFirst => String::from_str("停止・保持してから開始姿勢を確認してください"),
            PreparationError::Machine(r) => r.message(),
            PreparationError::ConnectGamepad => String::from_str("DualSenseを接続してください"),
            PreparationError::ReleaseInput => String::from_str("スティックとボタンを離してください"),
            PreparationError::GuideFromScreen => String::from_str("ガイドの表示切替は画面から行ってください"),
            PreparationError::GuideStateRequired => String::from_str("ガイドの表示状態が必要です"),
            PreparationError::PeopleOnly => String::from_str(
                "準備の切替は人間が画面またはコントローラから行ってください",
            ),
            PreparationError::StopBeforeCourt => String::from_str(
                "準備画面で全操作を停止してからコートを変更してください",
            ),
            PreparationError::BackToSetting => String::from_str("準備画面へ戻って再確認してください"),
            PreparationError::WaitFirst => String::from_str("準備完了を確認して開始待ちへ移ってください"),
            PreparationError::Unknown => String::from_str("不明な準備操作です"),
        }
    }
}

/// The first reason the machine cannot wait for the start, in the order checked.
pub open spec fn readiness_spec(r: Readiness) -> Result<(), PreparationError> {
    if !r.court_chosen {
        Err(PreparationError::ChooseCourt)
    } else if r.emergency {
        Err(PreparationError::ResetEmergency)
    } else if r.adjustment {
        Err(PreparationError::EndAdjustment)
    } else if r.ai_active {
        Err(PreparationError::ReturnToPeople)
    } else if r.automatic {
        Err(PreparationError::WaitForMotion)
    } else if r.tools_busy {
        Err(PreparationError::EndTools)
    } else if r.moving {
        Err(PreparationError::StopFirst)
    } else if r.machine is Err {
        Err(PreparationError::Machine(r.machine->Err_0))
    } else if !r.control_available {
        Err(PreparationError::ConnectGamepad)
    } else if !r.input_released {
        Err(PreparationError::ReleaseInput)
    } else {
        Ok(())
    }
}

/// Checks that the machine may wait for the start.
pub fn preparation_ready(r: Readiness) -> (res: Result<(), PreparationError>)
    ensures
        res == readiness_spec(r),
{
    if !r.court_chosen {
        Err(PreparationError::ChooseCourt)
    } else if r.emergency {
        Err(PreparationError::ResetEmergency)
    } else if r.adjustment {
        Err(PreparationError::EndAdjustment)
    } else if r.ai_active {
        Err(PreparationError::ReturnToPeople)
    } else if r.automatic {
        Err(PreparationError::WaitForMotion)
    } else if r.tools_busy {
        Err(PreparationError::EndTools)
    } else if r.moving {
        Err(PreparationError::StopFirst)
    } else if let Err(e) = r.machine {
        Err(PreparationError::Machine(e))
    } else if !r.control_available {
        Err(PreparationError::ConnectGamepad)
    } else if !r.input_released {
        Err(PreparationError::ReleaseInput)
    } else {
        Ok(())
    }
}

/// What a taken preparation request does.
#[derive(Clone, Copy, Debug, PartialEq, Eq, Structural)]
pub enum Step {
    /// Show or hide the guide.
    Guide(bool),
    /// Stop, forget the court and the origins, back to the court choice.
    Restart,
    /// Choose the court; the origins are kept only when it does not change.
    ChooseCourt(Court),
    /// Wait for the start signal.
    Wait,
    /// Start the match (if the start fails, the preparation recovers).
    Start,
    /// Back to the preparation screen.
    Return,
}

/// What the worker knows when a preparation request comes in.
#[derive(Clone, Copy, Debug)]
pub struct PreparationState {
    pub phase: PreparationPhase,
    pub ai_active: bool,
    /// Nothing moves or runs: no emergency, homing, drive, test or servo management.
    pub idle: bool,
    pub readiness: Readiness,
}

/// The decision on a preparation request. The court is named `red` or `blue`.
pub open spec fn preparation_spec(
    s: PreparationState,
    action: Seq<char>,
    manual: bool,
    flag: Option<bool>,
    text: Option<Seq<char>>,
) -> Result<Step, PreparationError> {
    if action == "preparation_guide"@ {
        if !manual {
            Err(PreparationError::GuideFromScreen)
        } else {
            match flag {
                Some(f) => Ok(Step::Guide(f)),
                None => Err(PreparationError::GuideStateRequired),
            }
        }
    } else if !(manual && !s.ai_active) {
        Err(PreparationError::PeopleOnly)
    } else if action == "preparation_restart"@ {
        Ok(Step::Restart)
    } else if action == "preparation_court"@ {
        if !(s.phase == PreparationPhase::Setting && s.idle) {
            Err(PreparationError::StopBeforeCourt)
        } else if text == Some("red"@) {
            Ok(Step::ChooseCourt(Court::Red))
        } else if text == Some("blue"@) {
            Ok(Step::ChooseCourt(Court::Blue))
        } else {
            Err(PreparationError::ChooseCourt)
        }
    } else if action == "preparation_wait"@ {
        if s.phase != PreparationPhase::Setting {
            Err(PreparationError::BackToSetting)
        } else {
            match readiness_spec(s.readiness) {
                Err(e) => Err(e),
                Ok(()) => Ok(Step::Wait),
            }
        }
    } else if action == "preparation_start"@ {
        if s.phase != PreparationPhase::Waiting {
            Err(PreparationError::WaitFirst)
        } else {
            match readiness_spec(s.readiness) {
                Err(e) => Err(e),
                Ok(()) => Ok(Step::Start),
            }
        }
    } else if action == "preparation_return"@ {
        Ok(Step::Return)
    } else {
        Err(PreparationError::Unknown)
    }
}

/// Decides on a preparation request.
pub fn preparation_request(
    s: PreparationState,
    action: &str,
    manual: bool,
    flag: Option<bool>,
    text: Option<&str>,
) -> (r: Result<Step, PreparationError>)
    ensures
        r == preparation_spec(
            s,
            action@,
            manual,
            flag,
            match text {
                Some(t) => Some(t@),
                None => None,
            },
        ),
{
    let v = chars_of(action);
    if chars_eq(v.as_slice(), "preparation_guide") {
        if !manual {
            return Err(PreparationError::GuideFromScreen);
        }
        return match flag {
            Some(f) => Ok(Step::Guide(f)),
            None => Err(PreparationError::GuideStateRequired),
        };
    }
    if !(manual && !s.ai_active) {
        return Err(PreparationError::PeopleOnly);
    }
    if chars_eq(v.as_slice(), "preparation_restart") {
        Ok(Step::Restart)
    } else if chars_eq(v.as_slice(), "preparation_court") {
        if !(matches!(s.phase, PreparationPhase::Setting) && s.idle) {
            return Err(PreparationError::StopBeforeCourt);
        }
        match text {
            Some(t) => {
                let tv = chars_of(t);
                if chars_eq(tv.as_slice(), "red") {
                    Ok(Step::ChooseCourt(Court::Red))
                } else if chars_eq(tv.as_slice(), "blue") {
                    Ok(Step::ChooseCourt(Court::Blue))
                } else {
                    Err(PreparationError::ChooseCourt)
                }
            },
            None => Err(PreparationError::ChooseCourt),
        }
    } else if chars_eq(v.as_slice(), "preparation_wait") {
        if !matches!(s.phase, PreparationPhase::Setting) {
            return Err(PreparationError::BackToSetting);
        }
        match preparation_ready(s.readiness) {
            Err(e) => Err(e),
            Ok(()) => Ok(Step::Wait),
        }
    } else if chars_eq(v.as_slice(), "preparation_start") {
        if !matches!(s.phase, PreparationPhase::Waiting) {
            return Err(PreparationError::WaitFirst);
        }
        match preparation_ready(s.readiness) {
            Err(e) => Err(e),
            Ok(()) => Ok(Step::Start),
        }
    } else if chars_eq(v.as_slice(), "preparation_return") {
        Ok(Step::Return)
    } else {
        Err(PreparationError::Unknown)
    }
}

/// The match starts only from waiting, and only when every readiness check
/// passes: a court chosen, no emergency, no adjustment, people in control,
/// nothing running, the machine stopped and ready, a gamepad and released
/// input.
pub proof fn lemma_start_needs_readiness(
    s: PreparationState,
    manual: bool,
    flag: Option<bool>,
    text: Option<Seq<char>>,
)
    requires
        preparation_spec(s, "preparation_start"@, manual, flag, text) is Ok,
    ensures
        manual,
        !s.ai_active,
        s.phase == PreparationPhase::Waiting,
        readiness_spec(s.readiness) is Ok,
        s.readiness.court_chosen && !s.readiness.emergency && !s.readiness.moving,
        s.readiness.machine is Ok,
{
    reveal_strlit("preparation_guide");
    reveal_strlit("preparation_start");
    assert("preparation_guide"@ != "preparation_start"@) by {
        assert("preparation_guide"@[12] != "preparation_start"@[12]);
    }
    reveal_strlit("preparation_restart");
    reveal_strlit("preparation_court");
    reveal_strlit("preparation_wait");
    assert("preparation_restart"@.len() != "preparation_start"@.len());
    assert("preparation_court"@ != "preparation_start"@) by {
        assert("preparation_court"@[12] != "preparation_start"@[12]);
    }
    assert("preparation_wait"@.len() != "preparation_start"@.len());
}

} // verus!
