//! Which sequence requests the worker takes: applying, reloading and saving
//! the sequence settings, and starting a run. Parsing the settings and the
//! positions of the steps (floating point) are the caller's; these functions
//! decide, in the worker's order, what is refused and why.
use vstd::prelude::*;
use vstd::string::*;
use crate::application::worker::readiness::{ReadyError, ready_message};
use crate::text::{chars_eq, chars_of};

verus! {

/// Where a sequence request goes once it is taken.
#[derive(Clone, Copy, Debug, PartialEq, Eq, Structural)]
pub enum SequenceRoute {
    /// Parse, check and adopt the settings in the request's text.
    Apply,
    /// Reload the settings saved beside the machine profile.
    Load,
    /// Save the current settings beside the machine profile.
    Save,
    /// Parse the group and operation in the request's text and start.
    Start,
}

/// Why a sequence request is refused before its text is read.
#[derive(Clone, Copy, Debug, PartialEq, Eq, Structural)]
pub enum SequenceError {
    StopToApply,
    TextRequired,
    ReloadAfterRun,
    Running,
    StartRequired,
    Unsupported,
}

pub open spec fn sequence_message(e: SequenceError) -> Seq<char> {
    match e {
        SequenceError::StopToApply => "シーケンスを中断してから設定を適用してください"@,
        SequenceError::TextRequired => "設定本文が必要です"@,
        SequenceError::ReloadAfterRun => "実行完了後に再読込してください"@,
        SequenceError::Running => "シーケンス実行中です"@,
        SequenceError::StartRequired => "取得グループと操作が必要です"@,
        SequenceError::Unsupported => "未対応のシーケンス操作です"@,
    }
}

impl SequenceError {
    /// The message shown to the operator.
    pub fn message(self) -> (text: String)
        ensures
            text@ == sequence_message(self),
    {
        match self {
            SequenceError::StopToApply => String::from_str("シーケンスを中断してから設定を適用してください"),
            SequenceError::TextRequired => String::from_str("設定本文が必要です"),
            SequenceError::ReloadAfterRun => String::from_str("実行完了後に再読込してください"),
            SequenceError::Running => String::from_str("シーケンス実行中です"),
            SequenceError::StartRequired => String::from_str("取得グループと操作が必要です"),
            SequenceError::Unsupported => String::from_str("未対応のシーケンス操作です"),
        }
    }
}

/// The decision on a sequence request: `running` says a sequence runs,
/// `has_text` that the request carries a text.  A running sequence blocks
/// applying, reloading and starting, not saving.
pub open spec fn sequence_gate_spec(running: bool, action: Seq<char>, has_text: bool) -> Result<
    SequenceRoute,
    SequenceError,
> {
    if action == "sequence_apply"@ {
        if running {
            Err(SequenceError::StopToApply)
        } else if !has_text {
            Err(SequenceError::TextRequired)
        } else {
            Ok(SequenceRoute::Apply)
        }
    } else if action == "sequence_load"@ {
        if running {
            Err(SequenceError::ReloadAfterRun)
        } else {
            Ok(SequenceRoute::Load)
        }
    } else if action == "sequence_save"@ {
        Ok(SequenceRoute::Save)
    } else if action == "sequence_start"@ {
        if running {
            Err(SequenceError::Running)
        } else if !has_text {
            Err(SequenceError::StartRequired)
        } else {
            Ok(SequenceRoute::Start)
        }
    } else {
        Err(SequenceError::Unsupported)
    }
}

/// Where a sequence request goes, or why it is refused.
pub fn sequence_gate(running: bool, action: &str, has_text: bool) -> (r: Result<
    SequenceRoute,
    SequenceError,
>)
    ensures
        r == sequence_gate_spec(running, action@, has_text),
{
    let v = chars_of(action);
    if chars_eq(v.as_slice(), "sequence_apply") {
        if running {
            Err(SequenceError::StopToApply)
        } else if !has_text {
            Err(SequenceError::TextRequired)
        } else {
            Ok(SequenceRoute::Apply)
        }
    } else if chars_eq(v.as_slice(), "sequence_load") {
        if running {
            Err(SequenceError::ReloadAfterRun)
        } else {
            Ok(SequenceRoute::Load)
        }
    } else if chars_eq(v.as_slice(), "sequence_save") {
        Ok(SequenceRoute::Save)
    } else if chars_eq(v.as_slice(), "sequence_start") {
        if running {
            Err(SequenceError::Running)
        } else if !has_text {
            Err(SequenceError::StartRequired)
        } else {
            Ok(SequenceRoute::Start)
        }
    } else {
        Err(SequenceError::Unsupported)
    }
}

/// Why a run with resolved steps may not start.
#[derive(Clone, Copy, Debug, PartialEq, Eq, Structural)]
pub enum StartRefusal<E> {
    /// The chosen group and operation have no step.
    NoSteps,
    /// The machine may not drive.
    NotReady(ReadyError),
    /// A step's target was refused by the axis checks, with their reason.
    Axis(E),
    /// An individual test or STS operation is still on.
    Busy,
}

/// The text of a refusal, given the text of the axis checks' reason.
pub open spec fn start_refusal_message<E>(r: StartRefusal<E>, axis_text: Seq<char>) -> Seq<char> {
    match r {
        StartRefusal::NoSteps => "実行する工程がありません"@,
        StartRefusal::NotReady(e) => ready_message(e),
        StartRefusal::Axis(_) => axis_text,
        StartRefusal::Busy => "個別操作を終了してください"@,
    }
}

/// The checks before a run starts, in order: there are steps, the machine
/// may drive, every step's targets pass the axis checks (`axes`), and no
/// individual operation is on (`busy`).
pub open spec fn start_check_spec<E>(
    n_steps: nat,
    ready: Result<(), ReadyError>,
    axes: Result<(), E>,
    busy: bool,
) -> Result<(), StartRefusal<E>> {
    if n_steps == 0 {
        Err(StartRefusal::NoSteps)
    } else if let Err(e) = ready {
        Err(StartRefusal::NotReady(e))
    } else if let Err(e) = axes {
        Err(StartRefusal::Axis(e))
    } else if busy {
        Err(StartRefusal::Busy)
    } else {
        Ok(())
    }
}

/// Whether a run with `n_steps` resolved steps may start, or why not.
pub fn start_check<E>(n_steps: usize, ready: Result<(), ReadyError>, axes: Result<(), E>, busy: bool) -> (r:
    Result<(), StartRefusal<E>>)
    ensures
        r == start_check_spec(n_steps as nat, ready, axes, busy),
{
    if n_steps == 0 {
        return Err(StartRefusal::NoSteps);
    }
    if let Err(e) = ready {
        return Err(StartRefusal::NotReady(e));
    }
    if let Err(e) = axes {
        return Err(StartRefusal::Axis(e));
    }
    if busy {
        return Err(StartRefusal::Busy);
    }
    Ok(())
}

} // verus!
