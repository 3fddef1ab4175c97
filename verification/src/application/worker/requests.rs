//! Which operator requests the worker takes, and in which order the rules
//! apply: the emergency latch, the right to operate, the individual tests, and
//! the changes that need the machine stopped. What a request then does to the
//! machine is the worker's.
use vstd::prelude::*;
use vstd::string::*;
use crate::application::authority::{Authority, AuthorityError, LeaseView, authorize_spec};
use crate::application::worker::DriveState;
use crate::diagnostics::fw_test::has_prefix;
use crate::text::{chars_eq, chars_of, starts_with};

verus! {

/// What the worker knows of itself when a request comes in.
#[derive(Clone, Copy, Debug)]
pub struct GateState {
    /// The software emergency stop is latched.
    pub emergency: bool,
    /// The individual test mode is on.
    pub test_enabled: bool,
    /// An individual test output is on.
    pub test_active: bool,
    /// Driving is on or requested.
    pub drive: DriveState,
    /// The machine's report is recent.
    pub fresh: bool,
}

/// Where a request goes once it is taken.
#[derive(Clone, Copy, Debug, PartialEq, Eq, Structural)]
pub enum Route {
    Emergency,
    ResetEmergency,
    Claim,
    Takeover,
    Test,
    Heartbeat,
    /// Change between gamepad and screen driving.
    ManualControl(bool),
    Release,
    Run,
    Stop,
    Cut,
    Safe,
    Origin,
    /// Soft limits off while adjusting.
    Adjustment(bool),
    Input,
    Connection,
    Reinit,
    Apply,
    Save,
    Fault,
}

/// Why a request is refused.
#[derive(Clone, Copy, Debug, PartialEq, Eq, Structural)]
pub enum GateError {
    HumanReset,
    NotLatched,
    Latched,
    InUse,
    GuiOnly,
    Authority(AuthorityError),
    StopTestFirst,
    StopToChangeControl,
    ControlRequired,
    StopForOrigin,
    StopToAdjust,
    ValueRequired,
    StopToChangeConnection,
    StopForReinit,
    StopToApply,
    StopToSave,
    Unsupported,
}

/// The text of each refusal.
pub open spec fn gate_message(e: GateError) -> Seq<char> {
    match e {
        GateError::HumanReset => "緊停解除は人間がGUIから行ってください"@,
        GateError::NotLatched => "ソフト緊停は解除済みです"@,
        GateError::Latched => "ソフト緊停中です。人間が解除するまで操作できません"@,
        GateError::InUse => "操作権は使用中です"@,
        GateError::GuiOnly => "通常操縦への切替はGUIから操作してください"@,
        GateError::Authority(a) => crate::application::authority::authority_error_message(a),
        GateError::StopTestFirst => "個別テストの出力を停止してから操作してください"@,
        GateError::StopToChangeControl => "停止してから操作方法を変更してください"@,
        GateError::ControlRequired => "操作方法が必要です"@,
        GateError::StopForOrigin => "停止して最新の実測位置を確認してください"@,
        GateError::StopToAdjust => "停止してから切り替えてください"@,
        GateError::ValueRequired => "valueが必要です"@,
        GateError::StopToChangeConnection => "停止してから接続先を変更してください"@,
        GateError::StopForReinit => "停止して接続を確認してください"@,
        GateError::StopToApply => "停止してから設定を適用してください"@,
        GateError::StopToSave => "停止してから保存してください"@,
        GateError::Unsupported => "未対応の操作です"@,
    }
}

impl GateError {
    /// The message shown to the operator.
    pub fn message(self) -> (text: String)
        ensures
            text@ == gate_message(self),
    {
        match self {
            GateError::HumanReset => String::from_str("緊停解除は人間がGUIから行ってください"),
            GateError::NotLatched => String::from_str("ソフト緊停は解除済みです"),
            GateError::Latched => String::from_str("ソフト緊停中です。人間が解除するまで操作できません"),
            GateError::InUse => String::from_str("操作権は使用中です"),
            GateError::GuiOnly => String::from_str("通常操縦への切替はGUIから操作してください"),
            GateError::Authority(a) => a.message(),
            GateError::StopTestFirst => String::from_str("個別テストの出力を停止してから操作してください"),
            GateError::StopToChangeControl => String::from_str("停止してから操作方法を変更してください"),
            GateError::ControlRequired => String::from_str("操作方法が必要です"),
            GateError::StopForOrigin => String::from_str("停止して最新の実測位置を確認してください"),
            GateError::StopToAdjust => String::from_str("停止してから切り替えてください"),
            GateError::ValueRequired => String::from_str("valueが必要です"),
            GateError::StopToChangeConnection => String::from_str("停止してから接続先を変更してください"),
            GateError::StopForReinit => String::from_str("停止して接続を確認してください"),
            GateError::StopToApply => String::from_str("停止してから設定を適用してください"),
            GateError::StopToSave => String::from_str("停止してから保存してください"),
            GateError::Unsupported => String::from_str("未対応の操作です"),
        }
    }
}

/// Driving is on or requested.
pub open spec fn moving(d: DriveState) -> bool {
    d != DriveState::Stopped
}

/// The requests that stay open while the emergency stop is latched.
pub open spec fn emergency_allows(action: Seq<char>) -> bool {
    action == "stop"@ || action == "cut"@ || action == "safe"@ || action == "fault"@ || action
        == "connection"@
}

/// The requests refused while an individual test output is on.
pub open spec fn test_excludes(action: Seq<char>) -> bool {
    action == "apply"@ || action == "save"@ || action == "connection"@ || action == "reinit"@
        || action == "origin"@ || action == "adjustment"@ || action == "manual_control"@
}

/// Where an authorized request goes, by its action.
pub open spec fn route_spec(s: GateState, action: Seq<char>, flag: Option<bool>, has_value: bool) -> Result<
    Route,
    GateError,
> {
    if action == "heartbeat"@ {
        Ok(Route::Heartbeat)
    } else if action == "manual_control"@ {
        if moving(s.drive) {
            Err(GateError::StopToChangeControl)
        } else {
            match flag {
                Some(f) => Ok(Route::ManualControl(f)),
                None => Err(GateError::ControlRequired),
            }
        }
    } else if action == "release"@ {
        Ok(Route::Release)
    } else if action == "run"@ {
        Ok(Route::Run)
    } else if action == "stop"@ {
        Ok(Route::Stop)
    } else if action == "cut"@ {
        Ok(Route::Cut)
    } else if action == "safe"@ {
        Ok(Route::Safe)
    } else if action == "origin"@ {
        if moving(s.drive) || !s.fresh {
            Err(GateError::StopForOrigin)
        } else {
            Ok(Route::Origin)
        }
    } else if action == "adjustment"@ {
        if moving(s.drive) {
            Err(GateError::StopToAdjust)
        } else {
            Ok(
                Route::Adjustment(
                    match flag {
                        Some(f) => f,
                        None => false,
                    },
                ),
            )
        }
    } else if action == "input"@ {
        if has_value {
            Ok(Route::Input)
        } else {
            Err(GateError::ValueRequired)
        }
    } else if action == "connection"@ {
        if moving(s.drive) {
            Err(GateError::StopToChangeConnection)
        } else {
            Ok(Route::Connection)
        }
    } else if action == "reinit"@ {
        if moving(s.drive) || !s.fresh {
            Err(GateError::StopForReinit)
        } else {
            Ok(Route::Reinit)
        }
    } else if action == "apply"@ {
        if moving(s.drive) {
            Err(GateError::StopToApply)
        } else {
            Ok(Route::Apply)
        }
    } else if action == "save"@ {
        if moving(s.drive) {
            Err(GateError::StopToSave)
        } else {
            Ok(Route::Save)
        }
    } else if action == "fault"@ {
        Ok(Route::Fault)
    } else {
        Err(GateError::Unsupported)
    }
}

/// The decision on a request, and the lease after it. `manual`: the request
/// comes from a person at the GUI rather than from the local API.
pub open spec fn gate_spec(
    s: GateState,
    a: Option<LeaseView>,
    action: Seq<char>,
    token: Option<Seq<char>>,
    manual: bool,
    flag: Option<bool>,
    has_value: bool,
    now: u64,
) -> (Option<LeaseView>, Result<Route, GateError>) {
    if action == "estop"@ {
        (a, Ok(Route::Emergency))
    } else if action == "estop_reset"@ {
        if !manual {
            (a, Err(GateError::HumanReset))
        } else if !s.emergency {
            (a, Err(GateError::NotLatched))
        } else {
            (a, Ok(Route::ResetEmergency))
        }
    } else if s.emergency && !emergency_allows(action) {
        (a, Err(GateError::Latched))
    } else if action == "claim"@ {
        if manual || a is Some || s.test_enabled {
            (a, Err(GateError::InUse))
        } else {
            (a, Ok(Route::Claim))
        }
    } else if action == "takeover"@ {
        if !manual {
            (a, Err(GateError::GuiOnly))
        } else {
            (a, Ok(Route::Takeover))
        }
    } else {
        let auth = authorize_spec(a, token, manual, action == "stop"@, now);
        match auth.1 {
            Err(e) => (auth.0, Err(GateError::Authority(e))),
            Ok(()) => if has_prefix(action, "test_"@) {
                (auth.0, Ok(Route::Test))
            } else if s.test_active && test_excludes(action) {
                (auth.0, Err(GateError::StopTestFirst))
            } else {
                (auth.0, route_spec(s, action, flag, has_value))
            },
        }
    }
}

fn is(v: &Vec<char>, lit: &str) -> (b: bool)
    ensures
        b == (v@ == lit@),
{
    chars_eq(v.as_slice(), lit)
}

/// Where an authorized request goes.
fn route(s: GateState, v: &Vec<char>, flag: Option<bool>, has_value: bool) -> (r: Result<
    Route,
    GateError,
>)
    ensures
        r == route_spec(s, v@, flag, has_value),
{
    let moving = !matches!(s.drive, DriveState::Stopped);
    if is(v, "heartbeat") {
        Ok(Route::Heartbeat)
    } else if is(v, "manual_control") {
        if moving {
            Err(GateError::StopToChangeControl)
        } else {
            match flag {
                Some(f) => Ok(Route::ManualControl(f)),
                None => Err(GateError::ControlRequired),
            }
        }
    } else if is(v, "release") {
        Ok(Route::Release)
    } else if is(v, "run") {
        Ok(Route::Run)
    } else if is(v, "stop") {
        Ok(Route::Stop)
    } else if is(v, "cut") {
        Ok(Route::Cut)
    } else if is(v, "safe") {
        Ok(Route::Safe)
    } else if is(v, "origin") {
        if moving || !s.fresh {
            Err(GateError::StopForOrigin)
        } else {
            Ok(Route::Origin)
        }
    } else if is(v, "adjustment") {
        if moving {
            Err(GateError::StopToAdjust)
        } else {
            Ok(
                Route::Adjustment(
                    match flag {
                        Some(f) => f,
                        None => false,
                    },
                ),
            )
        }
    } else if is(v, "input") {
        if has_value {
            Ok(Route::Input)
        } else {
            Err(GateError::ValueRequired)
        }
    } else if is(v, "connection") {
        if moving {
            Err(GateError::StopToChangeConnection)
        } else {
            Ok(Route::Connection)
        }
    } else if is(v, "reinit") {
        if moving || !s.fresh {
            Err(GateError::StopForReinit)
        } else {
            Ok(Route::Reinit)
        }
    } else if is(v, "apply") {
        if moving {
            Err(GateError::StopToApply)
        } else {
            Ok(Route::Apply)
        }
    } else if is(v, "save") {
        if moving {
            Err(GateError::StopToSave)
        } else {
            Ok(Route::Save)
        }
    } else if is(v, "fault") {
        Ok(Route::Fault)
    } else {
        Err(GateError::Unsupported)
    }
}

/// Decides on an operator request `action` at `now` (ms): the emergency stop
/// is always taken and only a person resets it; while it is latched only the
/// stopping requests and a change of connection pass; the right to operate is
/// claimed only from the API when nobody holds it and no test runs; after the
/// lease check, a running individual test keeps settings from changing, and
/// the changes that move nothing need the machine stopped.
pub fn gate(
    s: GateState,
    authority: &mut Authority,
    action: &str,
    token: Option<&str>,
    manual: bool,
    flag: Option<bool>,
    has_value: bool,
    now: u64,
) -> (r: Result<Route, GateError>)
    ensures
        (final(authority)@, r) == gate_spec(
            s,
            old(authority)@,
            action@,
            match token {
                Some(t) => Some(t@),
                None => None,
            },
            manual,
            flag,
            has_value,
            now,
        ),
{
    let v = chars_of(action);
    if is(&v, "estop") {
        return Ok(Route::Emergency);
    }
    if is(&v, "estop_reset") {
        if !manual {
            return Err(GateError::HumanReset);
        }
        if !s.emergency {
            return Err(GateError::NotLatched);
        }
        return Ok(Route::ResetEmergency);
    }
    if s.emergency && !(is(&v, "stop") || is(&v, "cut") || is(&v, "safe") || is(&v, "fault") || is(
        &v,
        "connection",
    )) {
        return Err(GateError::Latched);
    }
    if is(&v, "claim") {
        if manual || authority.active() || s.test_enabled {
            return Err(GateError::InUse);
        }
        return Ok(Route::Claim);
    }
    if is(&v, "takeover") {
        if !manual {
            return Err(GateError::GuiOnly);
        }
        return Ok(Route::Takeover);
    }
    let stop = is(&v, "stop");
    match authority.authorize(token, manual, stop, now) {
        Err(e) => {
            return Err(GateError::Authority(e));
        },
        Ok(()) => {},
    }
    if starts_with(v.as_slice(), "test_") {
        return Ok(Route::Test);
    }
    if s.test_active && (is(&v, "apply") || is(&v, "save") || is(&v, "connection") || is(
        &v,
        "reinit",
    ) || is(&v, "origin") || is(&v, "adjustment") || is(&v, "manual_control")) {
        return Err(GateError::StopTestFirst);
    }
    route(s, &v, flag, has_value)
}

/// The emergency stop is taken in every state, from anyone, and changes nothing of the lease.
pub proof fn lemma_emergency_always_taken(
    s: GateState,
    a: Option<LeaseView>,
    token: Option<Seq<char>>,
    manual: bool,
    flag: Option<bool>,
    has_value: bool,
    now: u64,
)
    ensures
        gate_spec(s, a, "estop"@, token, manual, flag, has_value, now) == (a, Ok::<Route, GateError>(Route::Emergency)),
{
}

/// While the emergency stop is latched, a request is taken only if it stops,
/// cuts, makes safe, reports a fault, changes the connection, or is a person
/// resetting the latch.
pub proof fn lemma_latch_holds(
    s: GateState,
    a: Option<LeaseView>,
    action: Seq<char>,
    token: Option<Seq<char>>,
    manual: bool,
    flag: Option<bool>,
    has_value: bool,
    now: u64,
)
    requires
        s.emergency,
        gate_spec(s, a, action, token, manual, flag, has_value, now).1 is Ok,
    ensures
        action == "estop"@ || (action == "estop_reset"@ && manual) || emergency_allows(action),
{
}

/// `stop` is never refused: not by the latch, the lease, a test or the machine's state.
pub proof fn lemma_stop_always_taken(
    s: GateState,
    a: Option<LeaseView>,
    token: Option<Seq<char>>,
    manual: bool,
    flag: Option<bool>,
    has_value: bool,
    now: u64,
)
    ensures
        gate_spec(s, a, "stop"@, token, manual, flag, has_value, now) == (a, Ok::<Route, GateError>(Route::Stop)),
{
    reveal_strlit("stop");
    reveal_strlit("estop");
    reveal_strlit("estop_reset");
    reveal_strlit("claim");
    reveal_strlit("takeover");
    reveal_strlit("test_");
    reveal_strlit("apply");
    reveal_strlit("save");
    reveal_strlit("connection");
    reveal_strlit("reinit");
    reveal_strlit("origin");
    reveal_strlit("adjustment");
    reveal_strlit("manual_control");
    reveal_strlit("heartbeat");
    reveal_strlit("release");
    reveal_strlit("run");
    assert("stop"@ != "save"@) by {
        assert("stop"@[1] != "save"@[1]);
    }
    assert("stop"@.len() == 4);
    assert(!has_prefix("stop"@, "test_"@));
    assert(!test_excludes("stop"@));
    assert(emergency_allows("stop"@));
    assert("stop"@ != "estop"@);
    assert("stop"@ != "estop_reset"@);
    assert("stop"@ != "claim"@);
    assert("stop"@ != "takeover"@);
    assert(route_spec(s, "stop"@, flag, has_value) == Ok::<Route, GateError>(Route::Stop));
}

/// While the right to operate is held, a person's requests are refused, save
/// stopping and the emergency stop and its reset.
pub proof fn lemma_lease_excludes_people(
    s: GateState,
    l: LeaseView,
    action: Seq<char>,
    flag: Option<bool>,
    has_value: bool,
    now: u64,
)
    requires
        !s.emergency,
        action != "stop"@,
        action != "estop"@,
        action != "estop_reset"@,
        action != "takeover"@,
    ensures
        gate_spec(s, Some(l), action, None, true, flag, has_value, now).1 is Err,
{
}

/// Settings do not change while driving: a change of control, origin,
/// adjustment, connection, re-initialisation, applied or saved profile is
/// refused while the machine moves.
pub proof fn lemma_changes_need_stop(s: GateState, action: Seq<char>, flag: Option<bool>, has_value: bool)
    requires
        moving(s.drive),
        action == "manual_control"@ || action == "origin"@ || action == "adjustment"@ || action
            == "connection"@ || action == "reinit"@ || action == "apply"@ || action == "save"@,
    ensures
        route_spec(s, action, flag, has_value) is Err,
{
    reveal_strlit("heartbeat");
    reveal_strlit("manual_control");
    reveal_strlit("release");
    reveal_strlit("run");
    reveal_strlit("stop");
    reveal_strlit("cut");
    reveal_strlit("safe");
    reveal_strlit("origin");
    reveal_strlit("adjustment");
    reveal_strlit("input");
    reveal_strlit("connection");
    reveal_strlit("reinit");
    reveal_strlit("apply");
    reveal_strlit("save");
    assert("save"@ != "safe"@) by {
        assert("save"@[2] != "safe"@[2]);
    }
    assert("save"@ != "stop"@) by {
        assert("save"@[1] != "stop"@[1]);
    }
    assert("apply"@ != "input"@) by {
        assert("apply"@[0] != "input"@[0]);
    }
    assert("origin"@ != "reinit"@) by {
        assert("origin"@[0] != "reinit"@[0]);
    }
    assert("connection"@ != "adjustment"@) by {
        assert("connection"@[0] != "adjustment"@[0]);
    }
    assert("heartbeat"@.len() == 9);
    assert("manual_control"@.len() == 14);
    assert("origin"@.len() == 6);
    assert("release"@.len() == 7);
    assert("run"@.len() == 3);
    assert("cut"@.len() == 3);
    assert("safe"@.len() == 4);
    assert("stop"@.len() == 4);
    assert("input"@.len() == 5);
    assert("connection"@.len() == 10);
    assert("reinit"@.len() == 6);
    assert("adjustment"@.len() == 10);
    assert("apply"@.len() == 5);
    assert("save"@.len() == 4);
}


/// Why an input value for an axis is refused.
#[derive(Clone, Copy, Debug, PartialEq, Eq, Structural)]
pub enum InputError {
    OutOfRange,
    UnknownAxis,
    Unassigned,
    ScreenControlRequired,
    RunFirst,
}

/// Where an accepted input value goes: the screen's own input of that
/// gamepad axis (a person at the GUI), or the lease holder's input.
#[derive(Clone, Copy, Debug, PartialEq, Eq, Structural)]
pub enum InputTarget {
    Screen(usize),
    Lease(usize),
}

/// The text of each refusal of an input value.
pub open spec fn input_message(e: InputError) -> Seq<char> {
    match e {
        InputError::OutOfRange => "入力は-1..1で指定してください"@,
        InputError::UnknownAxis => "軸名が不正です"@,
        InputError::Unassigned => "入力が割り当てられていません"@,
        InputError::ScreenControlRequired => "画面操作を選択してください"@,
        InputError::RunFirst => "運転再開してから操作してください"@,
    }
}

impl InputError {
    /// The message shown to the operator.
    pub fn message(self) -> (text: String)
        ensures
            text@ == input_message(self),
    {
        match self {
            InputError::OutOfRange => String::from_str("入力は-1..1で指定してください"),
            InputError::UnknownAxis => String::from_str("軸名が不正です"),
            InputError::Unassigned => String::from_str("入力が割り当てられていません"),
            InputError::ScreenControlRequired => String::from_str("画面操作を選択してください"),
            InputError::RunFirst => String::from_str("運転再開してから操作してください"),
        }
    }
}

/// What becomes of an accepted `input` request. `in_range`: the value is
/// finite and at most 1 in magnitude; `axis`: the named axis, if
/// any, and its gamepad input, if it has one; `nonzero`: the value is not 0.
/// A person at the GUI drives only with screen control selected, and moves
/// an axis only while driving runs; the lease holder's input goes to its lease.
pub open spec fn input_spec(
    in_range: bool,
    axis: Option<Option<usize>>,
    manual: bool,
    screen_control: bool,
    nonzero: bool,
    drive: DriveState,
) -> Result<InputTarget, InputError> {
    if !in_range {
        Err(InputError::OutOfRange)
    } else {
        match axis {
            None => Err(InputError::UnknownAxis),
            Some(None) => Err(InputError::Unassigned),
            Some(Some(index)) => if !manual {
                Ok(InputTarget::Lease(index))
            } else if !screen_control {
                Err(InputError::ScreenControlRequired)
            } else if nonzero && drive != DriveState::Running {
                Err(InputError::RunFirst)
            } else {
                Ok(InputTarget::Screen(index))
            },
        }
    }
}

/// Where an `input` request's value goes, or why it is refused.
pub fn input_target(
    in_range: bool,
    axis: Option<Option<usize>>,
    manual: bool,
    screen_control: bool,
    nonzero: bool,
    drive: DriveState,
) -> (r: Result<InputTarget, InputError>)
    ensures
        r == input_spec(in_range, axis, manual, screen_control, nonzero, drive),
{
    if !in_range {
        return Err(InputError::OutOfRange);
    }
    let index = match axis {
        None => {
            return Err(InputError::UnknownAxis);
        },
        Some(None) => {
            return Err(InputError::Unassigned);
        },
        Some(Some(i)) => i,
    };
    if !manual {
        return Ok(InputTarget::Lease(index));
    }
    if !screen_control {
        return Err(InputError::ScreenControlRequired);
    }
    if nonzero && !drive.running() {
        return Err(InputError::RunFirst);
    }
    Ok(InputTarget::Screen(index))
}

} // verus!
