//! The bonus hand: a selector driven by a DC motor and read by an encoder,
//! which carries the received work to a box, and two bus servos that align
//! the work and open the box's lid. This is the cycle's state machine; the
//! worker sends what it asks for and hands back what the boards report.
use vstd::prelude::*;
use vstd::string::*;

verus! {

/// How old an encoder, contact or servo reading may be, in milliseconds.
pub const READING_MS: u64 = 300;

/// The least time between two DC commands of the same duty, in milliseconds.
pub const DC_REPEAT_MS: u64 = 100;

/// The least time between two requests for the limit switch, in milliseconds.
pub const LIMIT_POLL_MS: u64 = 100;

/// How long a manual selector command lasts, in milliseconds.
pub const MANUAL_MS: u64 = 200;

/// Where a bonus cycle stands.
#[derive(Clone, Copy, Debug, PartialEq, Eq, Structural)]
pub enum Phase {
    Idle,
    /// The selector moves to the box at this encoder count.
    ToBox(i32),
    AlignOut,
    AlignHome,
    LidOpen,
    LidClose,
    /// The selector returns to the handoff position at this encoder count.
    Return(i32),
}

pub open spec fn phase_label(p: Phase) -> Seq<char> {
    match p {
        Phase::Idle => "待機"@,
        Phase::ToBox(_) => "ボックスへ移動中"@,
        Phase::AlignOut => "ワーク整列中"@,
        Phase::AlignHome => "整列軸を戻しています"@,
        Phase::LidOpen => "蓋を開いて排出中"@,
        Phase::LidClose => "蓋を閉じています"@,
        Phase::Return(_) => "受け渡し位置へ復帰中"@,
    }
}

/// One of the two bus servos of the bonus hand.
#[derive(Clone, Copy, Debug, PartialEq, Eq, Structural)]
pub enum Servo {
    Align,
    Lid,
}

/// Something the worker sends for the bonus hand.
#[derive(Clone, Copy, Debug, PartialEq, Eq, Structural)]
pub enum BonusAction {
    /// A DC motor board command: operation, channel, value.
    Dc(u8, u8, i16),
    /// Move the servo to a position (target, enable, run).
    Target(Servo, i16),
    /// Ask the servo for its state.
    Read(Servo),
}

/// A bus servo of the bonus hand as the profile names it.
pub struct BonusServo {
    pub name: String,
    /// Its ordinary output is allowed.
    pub enabled: bool,
}

/// The bonus hand's part of the machine profile.
pub struct BonusProfile {
    pub capacity: u8,
    /// The encoder offset of each box from the handoff position.
    pub box_offsets: Vec<i32>,
    pub selector_duty: u16,
    /// The duty near the target.
    pub selector_slow_duty: u16,
    pub selector_tolerance_counts: i32,
    pub selector_slow_zone_counts: i32,
    /// The direction (-1 or 1) toward the handoff limit switch, when one is fitted.
    pub handoff_direction: Option<i8>,
    /// The servo in the serial servo board's list, if there is one of that name.
    pub align_servo: Option<BonusServo>,
    pub lid_servo: Option<BonusServo>,
    pub align_position: i16,
    pub align_home_position: i16,
    pub lid_open_position: i16,
    pub lid_closed_position: i16,
    pub servo_tolerance_counts: i32,
    pub dwell_ms: u64,
    pub cycle_timeout_ms: u64,
}

/// What the profile must hold for the duties to fit a DC command.
pub open spec fn profile_wf(p: BonusProfile) -> bool {
    &&& p.selector_duty <= 32767 && p.selector_slow_duty <= 32767
    &&& p.handoff_direction matches Some(d) ==> d == 1 || d == -1
}

/// The last answer of a bus servo: when it came, its error bits, its position.
#[derive(Clone, Copy, Debug)]
pub struct ServoReading {
    pub seen_ms: u64,
    pub error: u8,
    pub position: i32,
}

/// The state of the bonus hand.
#[derive(Clone, Copy, Debug)]
pub struct Bonus {
    /// The cycle starts by itself once the hand is full.
    pub semi_auto: bool,
    /// The encoder count of the handoff position.
    pub handoff: Option<i32>,
    /// The last encoder count and when it came.
    pub encoder: Option<(i32, u64)>,
    /// Whether the handoff limit switch reads reached, and when that came.
    pub limit: Option<(bool, u64)>,
    pub selected_box: usize,
    pub loaded: u8,
    pub phase: Phase,
    /// The last DC duty sent and when.
    pub last_dc: Option<(i16, u64)>,
    pub servo_started: Option<u64>,
    /// A manual selector command lasts until then.
    pub manual_until: Option<u64>,
    pub last_limit_poll: Option<u64>,
    pub cycle_started: Option<u64>,
    /// A servo was commanded and holds.
    pub sts_holding: bool,
}

/// Why the bonus hand cannot go on.
#[derive(Clone, Copy, Debug, PartialEq, Eq, Structural)]
pub enum BonusError {
    NotConfigured,
    NoEncoder,
    EncoderStalled,
    NoLimit,
    LimitStale,
    LimitWhileMoving,
    Timeout,
    NoServo,
    ServoDisabled(Servo),
    NoStsServo,
    Busy,
    NoHandoff,
    StaleEncoderAtStart,
    BadBox,
    BoxOutOfRange,
    IntoLimit,
    Unavailable,
    OtherMotion,
    StopToSwitch,
    ModeRequired,
    StopFirst,
    StaleEncoderAtCapture,
    BoxRequired,
    ManualOnly,
    DirectionRequired,
    Unsupported,
}

/// The name of the servo, as the profile gives it.
pub open spec fn servo_setting(p: BonusProfile, which: Servo) -> Option<BonusServo> {
    match which {
        Servo::Align => p.align_servo,
        Servo::Lid => p.lid_servo,
    }
}

pub open spec fn bonus_message(e: BonusError, p: BonusProfile) -> Seq<char> {
    match e {
        BonusError::NotConfigured => "ボーナスハンドが設定・有効化されていません"@,
        BonusError::NoEncoder => "AMT102-Vの値を取得できません"@,
        BonusError::EncoderStalled => "AMT102-Vの更新が停止しました"@,
        BonusError::NoLimit => "DCMDの受け渡し側リミットを取得できません"@,
        BonusError::LimitStale => "DCMDの受け渡し側リミット情報が古いため動かせません"@,
        BonusError::LimitWhileMoving => "ボックスへ移動中に受け渡し側リミットへ到達しました"@,
        BonusError::Timeout => "ボーナスハンドの自動動作が時間内に完了しませんでした"@,
        BonusError::NoServo => "ボーナスハンドのSTS設定がありません"@,
        BonusError::ServoDisabled(which) => match servo_setting(p, which) {
            Some(s) => s.name@ + "の通常出力が許可されていません"@,
            None => "の通常出力が許可されていません"@,
        },
        BonusError::NoStsServo => "STS設定がありません"@,
        BonusError::Busy => "ボーナスハンドは動作中です"@,
        BonusError::NoHandoff => "受け渡し位置を先に登録してください"@,
        BonusError::StaleEncoderAtStart => "AMT102-Vの値が古いため開始できません"@,
        BonusError::BadBox => "ボックス番号が不正です"@,
        BonusError::BoxOutOfRange => "ボックス位置がカウント範囲外です"@,
        BonusError::IntoLimit => "受け渡し側リミットへ押し込む向きには開始できません"@,
        BonusError::Unavailable => "接続・設定・緊停状態を確認してください"@,
        BonusError::OtherMotion => "ホーミング・シーケンス・個別テストを停止してください"@,
        BonusError::StopToSwitch => "動作を停止してから切り替えてください"@,
        BonusError::ModeRequired => "モードが必要です"@,
        BonusError::StopFirst => "動作を停止してください"@,
        BonusError::StaleEncoderAtCapture => "AMT102-Vの値が古いため登録できません"@,
        BonusError::BoxRequired => "ボックス番号が必要です"@,
        BonusError::ManualOnly => "手動モードで停止中のみ操作できます"@,
        BonusError::DirectionRequired => "方向が必要です"@,
        BonusError::Unsupported => "未対応のボーナスハンド操作です"@,
    }
}

impl BonusError {
    /// The message shown to the operator; a servo is named as in the profile.
    pub fn message(self, p: &BonusProfile) -> (text: String)
        ensures
            text@ == bonus_message(self, *p),
    {
        match self {
            BonusError::NotConfigured => String::from_str("ボーナスハンドが設定・有効化されていません"),
            BonusError::NoEncoder => String::from_str("AMT102-Vの値を取得できません"),
            BonusError::EncoderStalled => String::from_str("AMT102-Vの更新が停止しました"),
            BonusError::NoLimit => String::from_str("DCMDの受け渡し側リミットを取得できません"),
            BonusError::LimitStale => String::from_str("DCMDの受け渡し側リミット情報が古いため動かせません"),
            BonusError::LimitWhileMoving => String::from_str("ボックスへ移動中に受け渡し側リミットへ到達しました"),
            BonusError::Timeout => String::from_str("ボーナスハンドの自動動作が時間内に完了しませんでした"),
            BonusError::NoServo => String::from_str("ボーナスハンドのSTS設定がありません"),
            BonusError::ServoDisabled(which) => {
                let setting = match which {
                    Servo::Align => &p.align_servo,
                    Servo::Lid => &p.lid_servo,
                };
                let mut text = match setting {
                    Some(s) => s.name.clone(),
                    None => String::new(),
                };
                text.append("の通常出力が許可されていません");
                text
            },
            BonusError::NoStsServo => String::from_str("STS設定がありません"),
            BonusError::Busy => String::from_str("ボーナスハンドは動作中です"),
            BonusError::NoHandoff => String::from_str("受け渡し位置を先に登録してください"),
            BonusError::StaleEncoderAtStart => String::from_str("AMT102-Vの値が古いため開始できません"),
            BonusError::BadBox => String::from_str("ボックス番号が不正です"),
            BonusError::BoxOutOfRange => String::from_str("ボックス位置がカウント範囲外です"),
            BonusError::IntoLimit => String::from_str("受け渡し側リミットへ押し込む向きには開始できません"),
            BonusError::Unavailable => String::from_str("接続・設定・緊停状態を確認してください"),
            BonusError::OtherMotion => String::from_str("ホーミング・シーケンス・個別テストを停止してください"),
            BonusError::StopToSwitch => String::from_str("動作を停止してから切り替えてください"),
            BonusError::ModeRequired => String::from_str("モードが必要です"),
            BonusError::StopFirst => String::from_str("動作を停止してください"),
            BonusError::StaleEncoderAtCapture => String::from_str("AMT102-Vの値が古いため登録できません"),
            BonusError::BoxRequired => String::from_str("ボックス番号が必要です"),
            BonusError::ManualOnly => String::from_str("手動モードで停止中のみ操作できます"),
            BonusError::DirectionRequired => String::from_str("方向が必要です"),
            BonusError::Unsupported => String::from_str("未対応のボーナスハンド操作です"),
        }
    }
}

/// The time from `then` to `now`, or zero when `then` is later.
pub open spec fn since(now: u64, then: u64) -> u64 {
    if now >= then {
        (now - then) as u64
    } else {
        0
    }
}

fn since_exec(now: u64, then: u64) -> (d: u64)
    ensures
        d == since(now, then),
{
    if now >= then {
        now - then
    } else {
        0
    }
}

/// The sign of a number: -1, 0 or 1.
pub open spec fn sign(x: int) -> int {
    if x > 0 {
        1
    } else if x < 0 {
        -1
    } else {
        0
    }
}

fn sign_exec(x: i64) -> (s: i16)
    ensures
        s == sign(x as int),
{
    if x > 0 {
        1
    } else if x < 0 {
        -1
    } else {
        0
    }
}

pub open spec fn abs(x: int) -> int {
    if x < 0 {
        -x
    } else {
        x
    }
}

/// A DC duty command, sent when forced, when the duty changed, or when the
/// same duty was last sent `DC_REPEAT_MS` ago.
pub open spec fn dc_spec(c: Bonus, duty: i16, force: bool, now: u64) -> (Bonus, Seq<BonusAction>) {
    let due = force || match c.last_dc {
        None => true,
        Some((old, at)) => old != duty || since(now, at) >= DC_REPEAT_MS,
    };
    if due {
        (Bonus { last_dc: Some((duty, now)), ..c }, seq![BonusAction::Dc(4, 0, duty)])
    } else {
        (c, Seq::empty())
    }
}

/// A servo move: the servo must be in the list and allowed to drive.
pub open spec fn servo_spec(c: Bonus, p: BonusProfile, which: Servo, position: i16, now: u64) -> Result<
    (Bonus, Seq<BonusAction>),
    BonusError,
> {
    match servo_setting(p, which) {
        None => Err(BonusError::NoServo),
        Some(s) => if !s.enabled {
            Err(BonusError::ServoDisabled(which))
        } else {
            Ok(
                (
                    Bonus { servo_started: Some(now), sts_holding: true, ..c },
                    seq![BonusAction::Target(which, position)],
                ),
            )
        },
    }
}

/// Whether the handoff limit switch reads reached: `None` when none is
/// fitted; an error when its reading is missing or old.
pub open spec fn limit_spec(c: Bonus, p: BonusProfile, now: u64) -> Result<Option<bool>, BonusError> {
    match p.handoff_direction {
        None => Ok(None),
        Some(_) => match c.limit {
            None => Err(BonusError::NoLimit),
            Some((reached, seen)) => if since(now, seen) >= READING_MS {
                Err(BonusError::LimitStale)
            } else {
                Ok(Some(reached))
            },
        },
    }
}

/// Whether the servo reached `target`: a recent answer without an error,
/// given after the move started, within the tolerance.
pub open spec fn arrived_spec(
    c: Bonus,
    p: BonusProfile,
    which: Servo,
    target: i16,
    reading: Option<ServoReading>,
    now: u64,
) -> bool {
    &&& servo_setting(p, which) is Some
    &&& reading matches Some(f) && since(now, f.seen_ms) < READING_MS && f.error == 0 && (
    c.servo_started matches Some(started) && f.seen_ms >= started) && abs(f.position - target)
        <= p.servo_tolerance_counts
}

/// The request for the limit switch, every `LIMIT_POLL_MS` while one is fitted.
pub open spec fn poll_limit_spec(c: Bonus, p: BonusProfile, now: u64) -> (Bonus, Seq<BonusAction>) {
    if p.handoff_direction is Some && match c.last_limit_poll {
        None => true,
        Some(last) => since(now, last) >= LIMIT_POLL_MS,
    } {
        (Bonus { last_limit_poll: Some(now), ..c }, seq![BonusAction::Dc(6, 0, 0)])
    } else {
        (c, Seq::empty())
    }
}

/// A manual selector command toward the limit stops once the limit reads reached.
pub open spec fn manual_limit_spec(c: Bonus, p: BonusProfile, now: u64) -> Result<
    (Bonus, Seq<BonusAction>),
    BonusError,
> {
    let toward = c.manual_until is Some && (c.last_dc matches Some((duty, _)) && (
    p.handoff_direction matches Some(d) && sign(duty as int) == d as int));
    if !toward {
        Ok((c, Seq::empty()))
    } else {
        match limit_spec(c, p, now) {
            Err(e) => Err(e),
            Ok(r) => if r == Some(true) {
                let (c1, a1) = dc_spec(c, 0, true, now);
                Ok((Bonus { manual_until: None, ..c1 }, a1 + seq![BonusAction::Dc(3, 0, 0)]))
            } else {
                Ok((c, Seq::empty()))
            },
        }
    }
}

/// A manual selector command ends at its deadline.
pub open spec fn expire_spec(c: Bonus, now: u64) -> (Bonus, Seq<BonusAction>) {
    if c.manual_until matches Some(d) && now >= d {
        let (c1, a1) = dc_spec(c, 0, true, now);
        (Bonus { manual_until: None, ..c1 }, a1 + seq![BonusAction::Dc(3, 0, 0)])
    } else {
        (c, Seq::empty())
    }
}

/// The selector's duty toward `target`: slow near it, or when returning
/// past the encoder reference toward the limit switch.
pub open spec fn selector_duty_spec(p: BonusProfile, error: int, returning: bool) -> int {
    let passed = returning && (p.handoff_direction matches Some(d) && sign(error) != d as int);
    let magnitude = if passed || abs(error) <= p.selector_slow_zone_counts {
        p.selector_slow_duty as int
    } else {
        p.selector_duty as int
    };
    selector_direction(p, error, returning) * magnitude
}

/// Which way the selector turns: toward the limit switch when returning to
/// one, else toward the target.
pub open spec fn selector_direction(p: BonusProfile, error: int, returning: bool) -> int {
    if returning {
        match p.handoff_direction {
            Some(d) => d as int,
            None => sign(error),
        }
    } else {
        sign(error)
    }
}

/// A pass of a selector move, to a box or back to the handoff position.
pub open spec fn move_spec(c: Bonus, p: BonusProfile, target: i32, returning: bool, now: u64) -> (
    Bonus,
    Seq<BonusAction>,
    Result<(), BonusError>,
) {
    let stop = Bonus { phase: Phase::Idle, ..c };
    match c.encoder {
        None => (stop, Seq::empty(), Err(BonusError::NoEncoder)),
        Some((position, seen)) => if since(now, seen) >= READING_MS {
            (stop, Seq::empty(), Err(BonusError::EncoderStalled))
        } else {
            let error = target - position;
            match limit_spec(c, p, now) {
                Err(e) => (stop, Seq::empty(), Err(e)),
                Ok(lim) => if returning && lim == Some(true) {
                    let (c1, a1) = dc_spec(c, 0, true, now);
                    (
                        Bonus {
                            handoff: Some(position),
                            loaded: 0,
                            cycle_started: None,
                            phase: Phase::Idle,
                            ..c1
                        },
                        a1 + seq![BonusAction::Dc(3, 0, 0)],
                        Ok(()),
                    )
                } else if abs(error) <= p.selector_tolerance_counts && (!returning
                    || p.handoff_direction is None) {
                    let (c1, a1) = dc_spec(c, 0, true, now);
                    if returning {
                        (
                            Bonus { loaded: 0, cycle_started: None, phase: Phase::Idle, ..c1 },
                            a1 + seq![BonusAction::Dc(3, 0, 0)],
                            Ok(()),
                        )
                    } else {
                        match servo_spec(c1, p, Servo::Align, p.align_position, now) {
                            Err(e) => (Bonus { phase: Phase::Idle, ..c1 }, a1, Err(e)),
                            Ok((c2, a2)) => (Bonus { phase: Phase::AlignOut, ..c2 }, a1 + a2, Ok(())),
                        }
                    }
                } else if !returning && lim == Some(true) && (p.handoff_direction matches Some(d)
                    && selector_direction(p, error, returning) == d as int) {
                    (stop, Seq::empty(), Err(BonusError::LimitWhileMoving))
                } else {
                    let (c1, a1) = dc_spec(c, selector_duty_spec(p, error, returning) as i16, false, now);
                    (c1, a1, Ok(()))
                },
            }
        },
    }
}

/// A pass of a servo step: ask the servo for its state and, once it has
/// arrived (and `ready` holds), move on.
pub open spec fn servo_step_spec(
    c: Bonus,
    p: BonusProfile,
    which: Servo,
    target: i16,
    reading: Option<ServoReading>,
    ready: bool,
    next: Option<(Servo, i16)>,
    next_phase: Phase,
    now: u64,
) -> (Bonus, Seq<BonusAction>, Result<(), BonusError>) {
    if servo_setting(p, which) is None {
        (Bonus { phase: Phase::Idle, ..c }, Seq::empty(), Err(BonusError::NoStsServo))
    } else if arrived_spec(c, p, which, target, reading, now) && ready {
        match next {
            None => (Bonus { phase: next_phase, ..c }, seq![BonusAction::Read(which)], Ok(())),
            Some((servo, position)) => match servo_spec(c, p, servo, position, now) {
                Err(e) => (Bonus { phase: Phase::Idle, ..c }, seq![BonusAction::Read(which)], Err(e)),
                Ok((c1, a1)) => (
                    Bonus { phase: next_phase, ..c1 },
                    seq![BonusAction::Read(which)] + a1,
                    Ok(()),
                ),
            },
        }
    } else {
        (c, seq![BonusAction::Read(which)], Ok(()))
    }
}

/// A pass of the cycle in its current phase.
pub open spec fn phase_spec(
    c: Bonus,
    p: BonusProfile,
    align: Option<ServoReading>,
    lid: Option<ServoReading>,
    now: u64,
) -> (Bonus, Seq<BonusAction>, Result<(), BonusError>) {
    match c.phase {
        Phase::Idle => (c, Seq::empty(), Ok(())),
        Phase::ToBox(target) => move_spec(c, p, target, false, now),
        Phase::Return(target) => move_spec(c, p, target, true, now),
        Phase::AlignOut => servo_step_spec(
            c,
            p,
            Servo::Align,
            p.align_position,
            align,
            true,
            Some((Servo::Align, p.align_home_position)),
            Phase::AlignHome,
            now,
        ),
        Phase::AlignHome => servo_step_spec(
            c,
            p,
            Servo::Align,
            p.align_home_position,
            align,
            true,
            Some((Servo::Lid, p.lid_open_position)),
            Phase::LidOpen,
            now,
        ),
        Phase::LidOpen => servo_step_spec(
            c,
            p,
            Servo::Lid,
            p.lid_open_position,
            lid,
            c.servo_started matches Some(at) && since(now, at) >= p.dwell_ms,
            Some((Servo::Lid, p.lid_closed_position)),
            Phase::LidClose,
            now,
        ),
        Phase::LidClose => servo_step_spec(
            c,
            p,
            Servo::Lid,
            p.lid_closed_position,
            lid,
            true,
            None,
            Phase::Return(c.handoff->Some_0),
            now,
        ),
    }
}

/// A pass of the bonus hand: the limit request, a manual command stopped at
/// the limit or at its deadline, then the cycle within its time limit.
/// `profile` is `None` when the bonus hand is not configured or not enabled.
pub open spec fn tick_spec(
    c: Bonus,
    profile: Option<BonusProfile>,
    align: Option<ServoReading>,
    lid: Option<ServoReading>,
    now: u64,
) -> (Bonus, Seq<BonusAction>, Result<(), BonusError>) {
    let (c1, a1, r1) = match profile {
        Some(p) => {
            let (c0, a0) = poll_limit_spec(c, p, now);
            match manual_limit_spec(c0, p, now) {
                Err(e) => (c0, a0, Err(e)),
                Ok((cm, am)) => (cm, a0 + am, Ok(())),
            }
        },
        None => (c, Seq::empty(), Ok(())),
    };
    if r1 is Err {
        (c1, a1, r1)
    } else {
        let (c2, a2) = expire_spec(c1, now);
        if c2.phase == Phase::Idle {
            (c2, a1 + a2, Ok(()))
        } else {
            match profile {
                None => (c2, a1 + a2, Err(BonusError::NotConfigured)),
                Some(p) => if !(c2.cycle_started matches Some(s) && since(now, s) <= p.cycle_timeout_ms) {
                    (c2, a1 + a2, Err(BonusError::Timeout))
                } else {
                    let (c3, a3, r3) = phase_spec(c2, p, align, lid, now);
                    (c3, a1 + a2 + a3, r3)
                },
            }
        }
    }
}

/// The start of a cycle to the box `index`: the handoff position, a recent
/// encoder count, a box in the list whose position fits a count, and no
/// start into the limit switch already reached. The selector then drives
/// toward the box (or the work is aligned at once when already there).
pub open spec fn begin_spec(c: Bonus, p: BonusProfile, index: usize, now: u64) -> (
    Bonus,
    Seq<BonusAction>,
    Result<(), BonusError>,
) {
    if c.phase != Phase::Idle {
        (c, Seq::empty(), Err(BonusError::Busy))
    } else {
        match limit_spec(c, p, now) {
            Err(e) => (c, Seq::empty(), Err(e)),
            Ok(lim) => match c.handoff {
                None => (c, Seq::empty(), Err(BonusError::NoHandoff)),
                Some(handoff) => match c.encoder {
                    None => (c, Seq::empty(), Err(BonusError::NoEncoder)),
                    Some((encoder, seen)) => if since(now, seen) >= READING_MS {
                        (c, Seq::empty(), Err(BonusError::StaleEncoderAtStart))
                    } else if index >= p.box_offsets@.len() {
                        (c, Seq::empty(), Err(BonusError::BadBox))
                    } else if !(i32::MIN <= handoff + p.box_offsets@[index as int] <= i32::MAX) {
                        (c, Seq::empty(), Err(BonusError::BoxOutOfRange))
                    } else {
                        let target = handoff + p.box_offsets@[index as int];
                        let error = target - encoder;
                        if lim == Some(true) && (p.handoff_direction matches Some(d) && sign(error)
                            == d as int) {
                            (c, Seq::empty(), Err(BonusError::IntoLimit))
                        } else {
                            let there = abs(error) <= p.selector_tolerance_counts;
                            let c1 = Bonus {
                                selected_box: index,
                                phase: if there {
                                    Phase::AlignOut
                                } else {
                                    Phase::ToBox(target as i32)
                                },
                                cycle_started: Some(now),
                                ..c
                            };
                            let duty = if there {
                                0
                            } else {
                                selector_duty_spec(p, error, false)
                            };
                            let (c2, a2) = dc_spec(c1, duty as i16, true, now);
                            let a = seq![BonusAction::Dc(0, 0, 0)] + a2 + seq![BonusAction::Dc(2, 1, 0)];
                            if there {
                                match servo_spec(c2, p, Servo::Align, p.align_position, now) {
                                    Err(e) => (c2, a, Err(e)),
                                    Ok((c3, a3)) => (c3, a + a3, Ok(())),
                                }
                            } else {
                                (c2, a, Ok(()))
                            }
                        }
                    },
                },
            },
        }
    }
}

/// An operator request for the bonus hand. The worker rounds the request's
/// number before: the count received, or the jog duty (the direction in
/// -1..=1 times the selector duty).
#[derive(Clone, Copy, Debug, PartialEq, Eq, Structural)]
pub enum BonusRequest {
    /// Switch between manual and semi-automatic.
    Mode(Option<bool>),
    /// Take the current encoder count as the handoff position.
    Capture,
    Select(Option<usize>),
    /// Work received: how many (three when not given).
    Receive(Option<i64>),
    Reset,
    /// Run a cycle to this box, or to the selected one.
    Shoot(Option<usize>),
    /// Drive the selector by hand with this duty.
    Jog(Option<i16>),
    /// Open or close the lid by hand.
    Lid(Option<bool>),
    /// Push out or draw back the aligner by hand.
    Align(Option<bool>),
    Unknown,
}

/// What a taken request answers.
#[derive(Clone, Copy, Debug, PartialEq, Eq, Structural)]
pub enum BonusReply {
    Accepted,
    /// The handoff position was taken at this count.
    Captured(i32),
    /// The jog stopped at the handoff limit switch.
    LimitStop,
}

/// What else decides whether the bonus hand takes requests.
#[derive(Clone, Copy, Debug)]
pub struct BonusGate {
    pub fresh: bool,
    pub setup: bool,
    pub emergency: bool,
    /// Homing, a sequence, an individual test or a servo motion is under way.
    pub other_motion: bool,
}

pub open spec fn clamp(x: int, lo: int, hi: int) -> int {
    if x < lo {
        lo
    } else if x > hi {
        hi
    } else {
        x
    }
}

/// The decision on a request, the state after it and what to send.
pub open spec fn request_spec(
    c: Bonus,
    profile: Option<BonusProfile>,
    g: BonusGate,
    req: BonusRequest,
    now: u64,
) -> (Bonus, Seq<BonusAction>, Result<BonusReply, BonusError>) {
    let fail = |e: BonusError| (c, Seq::<BonusAction>::empty(), Err::<BonusReply, BonusError>(e));
    let done = |c1: Bonus| (c1, Seq::<BonusAction>::empty(), Ok::<BonusReply, BonusError>(BonusReply::Accepted));
    let manual = c.phase == Phase::Idle && !c.semi_auto;
    if !(g.fresh && g.setup && !g.emergency) {
        fail(BonusError::Unavailable)
    } else if g.other_motion {
        fail(BonusError::OtherMotion)
    } else {
        match profile {
            None => fail(BonusError::NotConfigured),
            Some(p) => match req {
                BonusRequest::Mode(flag) => if c.phase != Phase::Idle {
                    fail(BonusError::StopToSwitch)
                } else {
                    match flag {
                        None => fail(BonusError::ModeRequired),
                        Some(f) => done(Bonus { semi_auto: f, ..c }),
                    }
                },
                BonusRequest::Capture => if c.phase != Phase::Idle {
                    fail(BonusError::StopFirst)
                } else {
                    match c.encoder {
                        None => fail(BonusError::NoEncoder),
                        Some((count, seen)) => if since(now, seen) >= READING_MS {
                            fail(BonusError::StaleEncoderAtCapture)
                        } else {
                            (Bonus { handoff: Some(count), ..c }, Seq::empty(), Ok(BonusReply::Captured(count)))
                        },
                    }
                },
                BonusRequest::Select(index) => match index {
                    None => fail(BonusError::BoxRequired),
                    Some(i) => if i >= p.box_offsets@.len() {
                        fail(BonusError::BadBox)
                    } else {
                        done(Bonus { selected_box: i, ..c })
                    },
                },
                BonusRequest::Receive(count) => {
                    let added = clamp(
                        match count {
                            Some(n) => n as int,
                            None => 3,
                        },
                        1,
                        p.capacity as int,
                    );
                    let loaded = if c.loaded + added > p.capacity {
                        p.capacity
                    } else {
                        (c.loaded + added) as u8
                    };
                    let c1 = Bonus { loaded, ..c };
                    if c1.semi_auto && loaded >= p.capacity {
                        let (c2, a2, r2) = begin_spec(c1, p, c1.selected_box, now);
                        (c2, a2, match r2 {
                            Ok(()) => Ok(BonusReply::Accepted),
                            Err(e) => Err(e),
                        })
                    } else {
                        done(c1)
                    }
                },
                BonusRequest::Reset => done(Bonus { loaded: 0, ..c }),
                BonusRequest::Shoot(index) => {
                    let (c2, a2, r2) = begin_spec(
                        c,
                        p,
                        match index {
                            Some(i) => i,
                            None => c.selected_box,
                        },
                        now,
                    );
                    (c2, a2, match r2 {
                        Ok(()) => Ok(BonusReply::Accepted),
                        Err(e) => Err(e),
                    })
                },
                BonusRequest::Jog(duty) => if !manual {
                    fail(BonusError::ManualOnly)
                } else {
                    match duty {
                        None => fail(BonusError::DirectionRequired),
                        Some(d) => {
                            let toward = p.handoff_direction matches Some(dir) && sign(d as int) == dir as int;
                            if toward && limit_spec(c, p, now) is Err {
                                fail(limit_spec(c, p, now)->Err_0)
                            } else if toward && limit_spec(c, p, now) == Ok::<Option<bool>, BonusError>(Some(true)) {
                                let (c1, a1) = dc_spec(c, 0, true, now);
                                (
                                    Bonus { manual_until: None, ..c1 },
                                    a1 + seq![BonusAction::Dc(3, 0, 0)],
                                    Ok(BonusReply::LimitStop),
                                )
                            } else if d == 0 {
                                let (c1, a1) = dc_spec(c, 0, true, now);
                                (
                                    Bonus { manual_until: None, ..c1 },
                                    a1 + seq![BonusAction::Dc(3, 0, 0)],
                                    Ok(BonusReply::Accepted),
                                )
                            } else {
                                let (c1, a1) = dc_spec(c, d, true, now);
                                (
                                    Bonus { manual_until: Some((now + MANUAL_MS) as u64), ..c1 },
                                    seq![BonusAction::Dc(0, 0, 0)] + a1 + seq![BonusAction::Dc(2, 1, 0)],
                                    Ok(BonusReply::Accepted),
                                )
                            }
                        },
                    }
                },
                BonusRequest::Lid(flag) => if !manual {
                    fail(BonusError::ManualOnly)
                } else {
                    let position = if flag == Some(true) {
                        p.lid_open_position
                    } else {
                        p.lid_closed_position
                    };
                    match servo_spec(c, p, Servo::Lid, position, now) {
                        Err(e) => fail(e),
                        Ok((c1, a1)) => (c1, a1, Ok(BonusReply::Accepted)),
                    }
                },
                BonusRequest::Align(flag) => if !manual {
                    fail(BonusError::ManualOnly)
                } else {
                    let position = if flag == Some(true) {
                        p.align_position
                    } else {
                        p.align_home_position
                    };
                    match servo_spec(c, p, Servo::Align, position, now) {
                        Err(e) => fail(e),
                        Ok((c1, a1)) => (c1, a1, Ok(BonusReply::Accepted)),
                    }
                },
                BonusRequest::Unknown => fail(BonusError::Unsupported),
            },
        }
    }
}

/// Whether a cycle under way knows where to return: the handoff position.
pub open spec fn bonus_wf(c: Bonus) -> bool {
    c.phase != Phase::Idle ==> c.handoff is Some
}

proof fn lemma_phase_keeps_handoff(
    c: Bonus,
    p: BonusProfile,
    align: Option<ServoReading>,
    lid: Option<ServoReading>,
    now: u64,
)
    requires
        bonus_wf(c),
    ensures
        bonus_wf(phase_spec(c, p, align, lid, now).0),
{
    match c.phase {
        Phase::ToBox(t) => {
            assert(bonus_wf(move_spec(c, p, t, false, now).0));
        },
        Phase::Return(t) => {
            assert(bonus_wf(move_spec(c, p, t, true, now).0));
        },
        _ => {},
    }
}

/// A pass of the bonus hand keeps a running cycle's handoff position.
pub proof fn lemma_tick_keeps_handoff(
    c: Bonus,
    profile: Option<BonusProfile>,
    align: Option<ServoReading>,
    lid: Option<ServoReading>,
    now: u64,
)
    requires
        bonus_wf(c),
    ensures
        bonus_wf(tick_spec(c, profile, align, lid, now).0),
{
    match profile {
        Some(p) => {
            let (c0, a0) = poll_limit_spec(c, p, now);
            match manual_limit_spec(c0, p, now) {
                Err(e) => {},
                Ok((cm, am)) => {
                    let (c2, a2) = expire_spec(cm, now);
                    lemma_phase_keeps_handoff(c2, p, align, lid, now);
                },
            }
        },
        None => {},
    }
}

/// Starting a cycle and every operator request keep a running cycle's
/// handoff position.
pub proof fn lemma_requests_keep_handoff(
    c: Bonus,
    profile: Option<BonusProfile>,
    p: BonusProfile,
    g: BonusGate,
    req: BonusRequest,
    index: usize,
    now: u64,
)
    requires
        bonus_wf(c),
    ensures
        bonus_wf(begin_spec(c, p, index, now).0),
        bonus_wf(request_spec(c, profile, g, req, now).0),
{
    match profile {
        Some(q) => match req {
            BonusRequest::Receive(count) => {
                let added = clamp(
                    match count {
                        Some(n) => n as int,
                        None => 3,
                    },
                    1,
                    q.capacity as int,
                );
                let loaded = if c.loaded + added > q.capacity {
                    q.capacity
                } else {
                    (c.loaded + added) as u8
                };
                let c1 = Bonus { loaded, ..c };
                assert(bonus_wf(begin_spec(c1, q, c1.selected_box, now).0));
            },
            BonusRequest::Shoot(i) => {
                assert(bonus_wf(begin_spec(c, q, match i {
                    Some(i) => i,
                    None => c.selected_box,
                }, now).0));
            },
            _ => {},
        },
        None => {},
    }
}

/// The selector never drives toward a box into the handoff limit switch
/// once that switch reads reached: the pass fails and sends nothing.
pub proof fn lemma_no_drive_into_limit(c: Bonus, p: BonusProfile, target: i32, now: u64)
    requires
        c.encoder matches Some((position, seen)) && since(now, seen) < READING_MS && abs(
            target - position,
        ) > p.selector_tolerance_counts,
        limit_spec(c, p, now) == Ok::<Option<bool>, BonusError>(Some(true)),
        p.handoff_direction matches Some(d) && sign(target - c.encoder->Some_0.0) == d as int,
    ensures
        move_spec(c, p, target, false, now).1.len() == 0,
        move_spec(c, p, target, false, now).2 == Err::<(), BonusError>(BonusError::LimitWhileMoving),
{
}

/// A selector returning to a limit switch stops when the switch reads
/// reached: the cycle ends, the hand is empty, and the count there is the
/// new handoff position.
pub proof fn lemma_return_ends_at_limit(c: Bonus, p: BonusProfile, target: i32, now: u64)
    requires
        c.encoder matches Some((position, seen)) && since(now, seen) < READING_MS,
        limit_spec(c, p, now) == Ok::<Option<bool>, BonusError>(Some(true)),
    ensures
        move_spec(c, p, target, true, now).0.phase == Phase::Idle,
        move_spec(c, p, target, true, now).0.loaded == 0,
        move_spec(c, p, target, true, now).0.handoff == Some(c.encoder->Some_0.0),
        move_spec(c, p, target, true, now).2 is Ok,
{
}

/// The hand never counts more work than it holds.
pub proof fn lemma_loaded_within_capacity(
    c: Bonus,
    p: BonusProfile,
    g: BonusGate,
    count: Option<i64>,
    now: u64,
)
    requires
        p.capacity >= 1,
        c.loaded <= p.capacity,
    ensures
        request_spec(c, Some(p), g, BonusRequest::Receive(count), now).0.loaded <= p.capacity,
{
}

/// One thing the gamepad's bonus layer asks for, in the order it asks.
#[derive(Clone, Copy, Debug, PartialEq, Eq, Structural)]
pub enum PadStep {
    /// Switch between manual and semi-automatic.
    Mode,
    Capture,
    /// Three pieces of work received.
    Receive,
    /// A cycle to the selected box.
    Shoot,
    PrevBox,
    NextBox,
    /// Drive the selector by hand: -1, 0 (stop) or 1. Manual mode only.
    Jog(i8),
    /// Push out (`true`) or draw back the aligner. Manual mode only.
    Align(bool),
    /// Open (`true`) or close the lid. Manual mode only.
    Lid(bool),
}

/// Whether a button went down since the previous reading.
pub open spec fn pressed(buttons: Seq<u8>, previous: Seq<u8>, i: int) -> bool {
    buttons[i] != 0 && previous[i] == 0
}

pub open spec fn step_if(b: bool, s: PadStep) -> Seq<PadStep> {
    if b {
        seq![s]
    } else {
        Seq::empty()
    }
}

/// The jog direction that buttons 13 and 14 hold: 14 minus 13.
pub open spec fn jog_direction(buttons: Seq<u8>) -> int {
    (if buttons[14] != 0 {
        1int
    } else {
        0int
    }) - (if buttons[13] != 0 {
        1int
    } else {
        0int
    })
}

/// The steps of the bonus layer for one gamepad reading, each on a button
/// going down: button 6 toggles the mode, 4 takes the handoff position, 0
/// counts three received, 3 runs a cycle, 7 and 8 choose the previous and
/// next box; in manual mode buttons 13 and 14 drive the selector while held
/// (and stop it when released), 11 and 12 move the aligner and 1 and 2 the lid.
pub open spec fn pad_steps(buttons: Seq<u8>, previous: Seq<u8>, boxes: nat) -> Seq<PadStep> {
    layer_steps(buttons, previous, boxes) + manual_steps(buttons, previous)
}

/// The steps that work in either mode.
pub open spec fn layer_steps(buttons: Seq<u8>, previous: Seq<u8>, boxes: nat) -> Seq<PadStep> {
    step_if(pressed(buttons, previous, 6), PadStep::Mode) + step_if(
        pressed(buttons, previous, 4),
        PadStep::Capture,
    ) + step_if(pressed(buttons, previous, 0), PadStep::Receive) + step_if(
        pressed(buttons, previous, 3),
        PadStep::Shoot,
    ) + step_if(boxes > 0 && pressed(buttons, previous, 7), PadStep::PrevBox) + step_if(
        boxes > 0 && pressed(buttons, previous, 8),
        PadStep::NextBox,
    )
}

/// The steps that only work in manual mode.
pub open spec fn manual_steps(buttons: Seq<u8>, previous: Seq<u8>) -> Seq<PadStep> {
    let d = jog_direction(buttons);
    step_if(d != 0 || previous[13] != 0 || previous[14] != 0, PadStep::Jog(d as i8)) + step_if(
        pressed(buttons, previous, 11),
        PadStep::Align(true),
    ) + step_if(pressed(buttons, previous, 12), PadStep::Align(false)) + step_if(
        pressed(buttons, previous, 1),
        PadStep::Lid(true),
    ) + step_if(pressed(buttons, previous, 2), PadStep::Lid(false))
}

pub open spec fn unit_result(r: Result<BonusReply, BonusError>) -> Result<(), BonusError> {
    match r {
        Ok(_) => Ok(()),
        Err(e) => Err(e),
    }
}

pub open spec fn via_request(c: Bonus, p: BonusProfile, g: BonusGate, req: BonusRequest, now: u64) -> (
    Bonus,
    Seq<BonusAction>,
    Result<(), BonusError>,
) {
    let (c1, a1, r1) = request_spec(c, Some(p), g, req, now);
    (c1, a1, unit_result(r1))
}

/// One step of the bonus layer; the manual steps do nothing in semi-automatic mode.
#[verifier::opaque]
pub open spec fn pad_step_spec(c: Bonus, p: BonusProfile, g: BonusGate, step: PadStep, now: u64) -> (
    Bonus,
    Seq<BonusAction>,
    Result<(), BonusError>,
) {
    let boxes = p.box_offsets@.len();
    match step {
        PadStep::Mode => via_request(c, p, g, BonusRequest::Mode(Some(!c.semi_auto)), now),
        PadStep::Capture => via_request(c, p, g, BonusRequest::Capture, now),
        PadStep::Receive => via_request(c, p, g, BonusRequest::Receive(Some(3)), now),
        PadStep::Shoot => via_request(c, p, g, BonusRequest::Shoot(Some(c.selected_box)), now),
        PadStep::PrevBox => (
            Bonus { selected_box: ((c.selected_box + boxes - 1) % (boxes as int)) as usize, ..c },
            Seq::empty(),
            Ok(()),
        ),
        PadStep::NextBox => (
            Bonus { selected_box: ((c.selected_box + 1) % (boxes as int)) as usize, ..c },
            Seq::empty(),
            Ok(()),
        ),
        PadStep::Jog(d) => if c.semi_auto {
            (c, Seq::empty(), Ok(()))
        } else {
            via_request(c, p, g, BonusRequest::Jog(Some((d * p.selector_duty) as i16)), now)
        },
        PadStep::Align(out) => if c.semi_auto {
            (c, Seq::empty(), Ok(()))
        } else {
            via_request(c, p, g, BonusRequest::Align(Some(out)), now)
        },
        PadStep::Lid(open) => if c.semi_auto {
            (c, Seq::empty(), Ok(()))
        } else {
            via_request(c, p, g, BonusRequest::Lid(Some(open)), now)
        },
    }
}

/// The steps in order, stopping at the first error.
pub open spec fn pad_run_spec(c: Bonus, p: BonusProfile, g: BonusGate, steps: Seq<PadStep>, now: u64) -> (
    Bonus,
    Seq<BonusAction>,
    Result<(), BonusError>,
)
    decreases steps.len(),
{
    if steps.len() == 0 {
        (c, Seq::empty(), Ok(()))
    } else {
        let (c1, a1, r1) = pad_step_spec(c, p, g, steps[0], now);
        if r1 is Err {
            (c1, a1, r1)
        } else {
            let (c2, a2, r2) = pad_run_spec(c1, p, g, steps.drop_first(), now);
            (c2, a1 + a2, r2)
        }
    }
}

/// What a step of a reading may be: a jog of -1, 0 or 1, a receive only from
/// button 0 going down, a box change only when there are boxes.
pub open spec fn step_ok(s: PadStep, buttons: Seq<u8>, previous: Seq<u8>, boxes: nat) -> bool {
    &&& (s is Jog ==> (s->Jog_0 == -1 || s->Jog_0 == 0 || s->Jog_0 == 1))
    &&& (s == PadStep::Receive ==> pressed(buttons, previous, 0))
    &&& ((s == PadStep::PrevBox || s == PadStep::NextBox) ==> boxes > 0)
}

fn push_if(
    v: &mut Vec<PadStep>,
    c: bool,
    step: PadStep,
    Ghost(buttons): Ghost<Seq<u8>>,
    Ghost(previous): Ghost<Seq<u8>>,
    Ghost(boxes): Ghost<nat>,
)
    requires
        c ==> step_ok(step, buttons, previous, boxes),
        steps_ok(old(v)@, buttons, previous, boxes),
    ensures
        final(v)@ == old(v)@ + step_if(c, step),
        steps_ok(final(v)@, buttons, previous, boxes),
{
    reveal(steps_ok);
    if c {
        v.push(step);
        assert(v@ =~= old(v)@ + seq![step]);
    } else {
        assert(v@ =~= old(v)@ + Seq::<PadStep>::empty());
    }
}

/// Every step of a list is a possible one.
#[verifier::opaque]
pub open spec fn steps_ok(v: Seq<PadStep>, buttons: Seq<u8>, previous: Seq<u8>, boxes: nat) -> bool {
    forall|k: int| 0 <= k < v.len() ==> step_ok(#[trigger] v[k], buttons, previous, boxes)
}

fn layer_steps_exec(buttons: &[u8; 17], previous: &[u8; 17], boxes: usize) -> (v: Vec<PadStep>)
    ensures
        v@ == layer_steps(buttons@, previous@, boxes as nat),
        steps_ok(v@, buttons@, previous@, boxes as nat),
{
    let ghost b = buttons@;
    let ghost q = previous@;
    let ghost n = boxes as nat;
    let mut v: Vec<PadStep> = Vec::new();
    assert(steps_ok(v@, b, q, n)) by {
        reveal(steps_ok);
    }
    push_if(&mut v, buttons[6] != 0 && previous[6] == 0, PadStep::Mode, Ghost(b), Ghost(q), Ghost(n));
    assert(v@ =~= step_if(pressed(b, q, 6), PadStep::Mode));
    push_if(&mut v, buttons[4] != 0 && previous[4] == 0, PadStep::Capture, Ghost(b), Ghost(q), Ghost(n));
    push_if(&mut v, buttons[0] != 0 && previous[0] == 0, PadStep::Receive, Ghost(b), Ghost(q), Ghost(n));
    push_if(&mut v, buttons[3] != 0 && previous[3] == 0, PadStep::Shoot, Ghost(b), Ghost(q), Ghost(n));
    push_if(&mut v, boxes > 0 && buttons[7] != 0 && previous[7] == 0, PadStep::PrevBox, Ghost(b), Ghost(q), Ghost(n));
    push_if(&mut v, boxes > 0 && buttons[8] != 0 && previous[8] == 0, PadStep::NextBox, Ghost(b), Ghost(q), Ghost(n));
    v
}

fn manual_steps_exec(buttons: &[u8; 17], previous: &[u8; 17], Ghost(boxes): Ghost<nat>) -> (v: Vec<PadStep>)
    ensures
        v@ == manual_steps(buttons@, previous@),
        steps_ok(v@, buttons@, previous@, boxes),
{
    let ghost b = buttons@;
    let ghost q = previous@;
    let mut v: Vec<PadStep> = Vec::new();
    assert(steps_ok(v@, b, q, boxes)) by {
        reveal(steps_ok);
    }
    let right: i8 = if buttons[14] != 0 {
        1
    } else {
        0
    };
    let left: i8 = if buttons[13] != 0 {
        1
    } else {
        0
    };
    let d: i8 = right - left;
    assert(d as int == jog_direction(b));
    push_if(&mut v, d != 0 || previous[13] != 0 || previous[14] != 0, PadStep::Jog(d), Ghost(b), Ghost(q), Ghost(boxes));
    assert(v@ =~= step_if(jog_direction(b) != 0 || q[13] != 0 || q[14] != 0, PadStep::Jog(jog_direction(b) as i8)));
    push_if(&mut v, buttons[11] != 0 && previous[11] == 0, PadStep::Align(true), Ghost(b), Ghost(q), Ghost(boxes));
    push_if(&mut v, buttons[12] != 0 && previous[12] == 0, PadStep::Align(false), Ghost(b), Ghost(q), Ghost(boxes));
    push_if(&mut v, buttons[1] != 0 && previous[1] == 0, PadStep::Lid(true), Ghost(b), Ghost(q), Ghost(boxes));
    push_if(&mut v, buttons[2] != 0 && previous[2] == 0, PadStep::Lid(false), Ghost(b), Ghost(q), Ghost(boxes));
    v
}

/// The steps of the bonus layer for one reading, as `pad_steps` lists them.
pub fn pad_steps_exec(buttons: &[u8; 17], previous: &[u8; 17], boxes: usize) -> (v: Vec<PadStep>)
    ensures
        v@ == pad_steps(buttons@, previous@, boxes as nat),
        steps_ok(v@, buttons@, previous@, boxes as nat),
{
    let mut v = layer_steps_exec(buttons, previous, boxes);
    let mut w = manual_steps_exec(buttons, previous, Ghost(boxes as nat));
    let ghost a = v@;
    let ghost c = w@;
    v.append(&mut w);
    assert(steps_ok(v@, buttons@, previous@, boxes as nat)) by {
        reveal(steps_ok);
        assert forall|k: int| 0 <= k < v@.len() implies step_ok(#[trigger] v@[k], buttons@, previous@, boxes as nat) by {
            if k < a.len() {
                assert(v@[k] == a[k]);
            } else {
                assert(v@[k] == c[k - a.len()]);
            }
        }
    }
    v
}

impl Bonus {
    /// The state before anything was seen or set.
    pub fn new() -> (b: Bonus)
        ensures
            b == (Bonus {
                semi_auto: false,
                handoff: None,
                encoder: None,
                limit: None,
                selected_box: 0,
                loaded: 0,
                phase: Phase::Idle,
                last_dc: None,
                servo_started: None,
                manual_until: None,
                last_limit_poll: None,
                cycle_started: None,
                sts_holding: false,
            }),
    {
        Bonus {
            semi_auto: false,
            handoff: None,
            encoder: None,
            limit: None,
            selected_box: 0,
            loaded: 0,
            phase: Phase::Idle,
            last_dc: None,
            servo_started: None,
            manual_until: None,
            last_limit_poll: None,
            cycle_started: None,
            sts_holding: false,
        }
    }

    /// Whether a cycle runs.
    pub fn active(&self) -> (b: bool)
        ensures
            b == (self.phase != Phase::Idle),
    {
        self.phase != Phase::Idle
    }

    /// Whether the hand drives anything: a cycle, a manual command, or a held servo.
    pub fn outputs_active(&self) -> (b: bool)
        ensures
            b == (self.phase != Phase::Idle || self.manual_until is Some || self.sts_holding),
    {
        self.phase != Phase::Idle || self.manual_until.is_some() || self.sts_holding
    }

    /// Ends the cycle and every command, keeping what was measured.
    pub fn cancel(&mut self)
        ensures
            *final(self) == (Bonus {
                phase: Phase::Idle,
                last_dc: None,
                servo_started: None,
                manual_until: None,
                cycle_started: None,
                sts_holding: false,
                ..*old(self)
            }),
    {
        self.phase = Phase::Idle;
        self.last_dc = None;
        self.servo_started = None;
        self.manual_until = None;
        self.cycle_started = None;
        self.sts_holding = false;
    }

    /// Cancels, and forgets the handoff position and every reading.
    pub fn reset_reference(&mut self)
        ensures
            *final(self) == (Bonus {
                phase: Phase::Idle,
                last_dc: None,
                servo_started: None,
                manual_until: None,
                cycle_started: None,
                sts_holding: false,
                handoff: None,
                encoder: None,
                limit: None,
                last_limit_poll: None,
                ..*old(self)
            }),
    {
        self.cancel();
        self.handoff = None;
        self.encoder = None;
        self.limit = None;
        self.last_limit_poll = None;
    }

    /// Records an encoder count.
    pub fn observe_encoder(&mut self, count: i32, now: u64)
        ensures
            *final(self) == (Bonus { encoder: Some((count, now)), ..*old(self) }),
    {
        self.encoder = Some((count, now));
    }

    /// Records whether the handoff limit switch reads reached.
    pub fn observe_limit(&mut self, reached: bool, now: u64)
        ensures
            *final(self) == (Bonus { limit: Some((reached, now)), ..*old(self) }),
    {
        self.limit = Some((reached, now));
    }

    /// What the operator reads of the cycle.
    pub fn label(&self) -> (l: &'static str)
        ensures
            l@ == phase_label(self.phase),
    {
        match self.phase {
            Phase::Idle => "待機",
            Phase::ToBox(_) => "ボックスへ移動中",
            Phase::AlignOut => "ワーク整列中",
            Phase::AlignHome => "整列軸を戻しています",
            Phase::LidOpen => "蓋を開いて排出中",
            Phase::LidClose => "蓋を閉じています",
            Phase::Return(_) => "受け渡し位置へ復帰中",
        }
    }

    fn poll_limit(&mut self, p: &BonusProfile, now: u64, out: &mut Vec<BonusAction>)
        ensures
            *final(self) == poll_limit_spec(*old(self), *p, now).0,
            final(out)@ == old(out)@ + poll_limit_spec(*old(self), *p, now).1,
    {
        let due = p.handoff_direction.is_some() && match self.last_limit_poll {
            None => true,
            Some(last) => since_exec(now, last) >= LIMIT_POLL_MS,
        };
        if due {
            out.push(BonusAction::Dc(6, 0, 0));
            self.last_limit_poll = Some(now);
        } else {
            assert(out@ =~= old(out)@ + Seq::<BonusAction>::empty());
        }
    }

    fn manual_limit(&mut self, p: &BonusProfile, now: u64, out: &mut Vec<BonusAction>) -> (r: Result<(), BonusError>)
        ensures
            match manual_limit_spec(*old(self), *p, now) {
                Ok((c, a)) => r is Ok && *final(self) == c && final(out)@ == old(out)@ + a,
                Err(e) => r == Err::<(), BonusError>(e) && *final(self) == *old(self) && final(out)@ == old(out)@,
            },
    {
        let toward = self.manual_until.is_some() && match self.last_dc {
            Some((duty, _)) => match p.handoff_direction {
                Some(d) => sign_exec(duty as i64) == d as i16,
                None => false,
            },
            None => false,
        };
        if !toward {
            assert(out@ =~= old(out)@ + Seq::<BonusAction>::empty());
            return Ok(());
        }
        match self.limit_reached(p, now) {
            Err(e) => Err(e),
            Ok(r) => {
                if r == Some(true) {
                    self.dc(0, true, now, out);
                    out.push(BonusAction::Dc(3, 0, 0));
                    self.manual_until = None;
                } else {
                    assert(out@ =~= old(out)@ + Seq::<BonusAction>::empty());
                }
                Ok(())
            },
        }
    }

    fn expire(&mut self, now: u64, out: &mut Vec<BonusAction>)
        ensures
            *final(self) == expire_spec(*old(self), now).0,
            final(out)@ == old(out)@ + expire_spec(*old(self), now).1,
    {
        let due = match self.manual_until {
            Some(d) => now >= d,
            None => false,
        };
        if due {
            self.dc(0, true, now, out);
            out.push(BonusAction::Dc(3, 0, 0));
            self.manual_until = None;
        } else {
            assert(out@ =~= old(out)@ + Seq::<BonusAction>::empty());
        }
    }

    fn move_step(&mut self, p: &BonusProfile, target: i32, returning: bool, now: u64, out: &mut Vec<BonusAction>) -> (r: Result<(), BonusError>)
        requires
            profile_wf(*p),
        ensures
            *final(self) == move_spec(*old(self), *p, target, returning, now).0,
            final(out)@ == old(out)@ + move_spec(*old(self), *p, target, returning, now).1,
            r == move_spec(*old(self), *p, target, returning, now).2,
    {
        let (position, seen) = match self.encoder {
            None => {
                self.phase = Phase::Idle;
                assert(out@ =~= old(out)@ + Seq::<BonusAction>::empty());
                return Err(BonusError::NoEncoder);
            },
            Some(e) => e,
        };
        if since_exec(now, seen) >= READING_MS {
            self.phase = Phase::Idle;
            assert(out@ =~= old(out)@ + Seq::<BonusAction>::empty());
            return Err(BonusError::EncoderStalled);
        }
        let error: i64 = target as i64 - position as i64;
        let lim = match self.limit_reached(p, now) {
            Err(e) => {
                self.phase = Phase::Idle;
                assert(out@ =~= old(out)@ + Seq::<BonusAction>::empty());
                return Err(e);
            },
            Ok(l) => l,
        };
        let magnitude_error: i64 = if error < 0 {
            -error
        } else {
            error
        };
        if returning && lim == Some(true) {
            self.dc(0, true, now, out);
            self.handoff = Some(position);
            self.loaded = 0;
            self.cycle_started = None;
            out.push(BonusAction::Dc(3, 0, 0));
            self.phase = Phase::Idle;
            return Ok(());
        }
        if magnitude_error <= p.selector_tolerance_counts as i64 && (!returning
            || p.handoff_direction.is_none()) {
            self.dc(0, true, now, out);
            if returning {
                self.loaded = 0;
                self.cycle_started = None;
                out.push(BonusAction::Dc(3, 0, 0));
                self.phase = Phase::Idle;
                return Ok(());
            }
            match self.servo(p, Servo::Align, p.align_position, now, out) {
                Err(e) => {
                    self.phase = Phase::Idle;
                    return Err(e);
                },
                Ok(()) => {
                    self.phase = Phase::AlignOut;
                    return Ok(());
                },
            }
        }
        let s = sign_exec(error);
        let direction: i16 = if returning {
            match p.handoff_direction {
                Some(d) => d as i16,
                None => s,
            }
        } else {
            s
        };
        if !returning && lim == Some(true) && match p.handoff_direction {
            Some(d) => direction == d as i16,
            None => false,
        } {
            self.phase = Phase::Idle;
            assert(out@ =~= old(out)@ + Seq::<BonusAction>::empty());
            return Err(BonusError::LimitWhileMoving);
        }
        let passed = returning && match p.handoff_direction {
            Some(d) => s != d as i16,
            None => false,
        };
        let magnitude: u16 = if passed || magnitude_error <= p.selector_slow_zone_counts as i64 {
            p.selector_slow_duty
        } else {
            p.selector_duty
        };
        assert(direction == 1 || direction == 0 || direction == -1);
        assert(magnitude <= 32767);
        let m: i16 = magnitude as i16;
        assert(m as int == magnitude as int);
        let duty: i16 = if direction > 0 {
            m
        } else if direction < 0 {
            -m
        } else {
            0
        };
        proof {
            let e = error as int;
            assert(direction as int == selector_direction(*p, e, returning));
            assert(magnitude_error as int == abs(e));
            let mag = if (returning && (p.handoff_direction matches Some(d) && sign(e) != d as int))
                || abs(e) <= p.selector_slow_zone_counts {
                p.selector_slow_duty as int
            } else {
                p.selector_duty as int
            };
            assert(magnitude as int == mag);
            let sd = selector_direction(*p, e, returning);
            if direction > 0 {
                assert(sd * mag == mag) by (nonlinear_arith)
                    requires
                        sd == 1,
                ;
            } else if direction < 0 {
                assert(sd * mag == -mag) by (nonlinear_arith)
                    requires
                        sd == -1,
                ;
            } else {
                assert(sd * mag == 0) by (nonlinear_arith)
                    requires
                        sd == 0,
                ;
            }
            assert(duty as int == selector_duty_spec(*p, e, returning));
        }
        self.dc(duty, false, now, out);
        Ok(())
    }

    fn servo_step(
        &mut self,
        p: &BonusProfile,
        which: Servo,
        target: i16,
        reading: Option<ServoReading>,
        ready: bool,
        next: Option<(Servo, i16)>,
        next_phase: Phase,
        now: u64,
        out: &mut Vec<BonusAction>,
    ) -> (r: Result<(), BonusError>)
        ensures
            *final(self) == servo_step_spec(*old(self), *p, which, target, reading, ready, next, next_phase, now).0,
            final(out)@ == old(out)@ + servo_step_spec(*old(self), *p, which, target, reading, ready, next, next_phase, now).1,
            r == servo_step_spec(*old(self), *p, which, target, reading, ready, next, next_phase, now).2,
    {
        let configured = match which {
            Servo::Align => p.align_servo.is_some(),
            Servo::Lid => p.lid_servo.is_some(),
        };
        if !configured {
            self.phase = Phase::Idle;
            assert(out@ =~= old(out)@ + Seq::<BonusAction>::empty());
            return Err(BonusError::NoStsServo);
        }
        let ghost start = out@;
        out.push(BonusAction::Read(which));
        if self.arrived(p, which, target, reading, now) && ready {
            match next {
                None => {
                    self.phase = next_phase;
                    Ok(())
                },
                Some((servo, position)) => {
                    match self.servo(p, servo, position, now, out) {
                        Err(e) => {
                            self.phase = Phase::Idle;
                            Err(e)
                        },
                        Ok(()) => {
                            self.phase = next_phase;
                            assert(out@ =~= start + (seq![BonusAction::Read(which)] + servo_spec(
                                *old(self),
                                *p,
                                servo,
                                position,
                                now,
                            )->Ok_0.1));
                            Ok(())
                        },
                    }
                },
            }
        } else {
            Ok(())
        }
    }

    fn phase_step(
        &mut self,
        p: &BonusProfile,
        align: Option<ServoReading>,
        lid: Option<ServoReading>,
        now: u64,
        out: &mut Vec<BonusAction>,
    ) -> (r: Result<(), BonusError>)
        requires
            profile_wf(*p),
            old(self).phase == Phase::LidClose ==> old(self).handoff is Some,
        ensures
            *final(self) == phase_spec(*old(self), *p, align, lid, now).0,
            final(out)@ == old(out)@ + phase_spec(*old(self), *p, align, lid, now).1,
            r == phase_spec(*old(self), *p, align, lid, now).2,
    {
        match self.phase {
            Phase::Idle => {
                assert(out@ =~= old(out)@ + Seq::<BonusAction>::empty());
                Ok(())
            },
            Phase::ToBox(target) => self.move_step(p, target, false, now, out),
            Phase::Return(target) => self.move_step(p, target, true, now, out),
            Phase::AlignOut => self.servo_step(
                p,
                Servo::Align,
                p.align_position,
                align,
                true,
                Some((Servo::Align, p.align_home_position)),
                Phase::AlignHome,
                now,
                out,
            ),
            Phase::AlignHome => self.servo_step(
                p,
                Servo::Align,
                p.align_home_position,
                align,
                true,
                Some((Servo::Lid, p.lid_open_position)),
                Phase::LidOpen,
                now,
                out,
            ),
            Phase::LidOpen => {
                let dwelt = match self.servo_started {
                    Some(at) => since_exec(now, at) >= p.dwell_ms,
                    None => false,
                };
                self.servo_step(
                    p,
                    Servo::Lid,
                    p.lid_open_position,
                    lid,
                    dwelt,
                    Some((Servo::Lid, p.lid_closed_position)),
                    Phase::LidClose,
                    now,
                    out,
                )
            },
            Phase::LidClose => {
                let back = match self.handoff {
                    Some(h) => h,
                    None => 0,
                };
                self.servo_step(p, Servo::Lid, p.lid_closed_position, lid, true, None, Phase::Return(back), now, out)
            },
        }
    }

    /// A pass of the bonus hand: the actions to send, in order, and whether
    /// it went on without an error. After an error the cycle is over; the
    /// worker then cancels the hand and faults. `profile` is `None` when the
    /// bonus hand is not configured or not enabled.
    pub fn tick(
        &mut self,
        profile: Option<&BonusProfile>,
        align: Option<ServoReading>,
        lid: Option<ServoReading>,
        now: u64,
    ) -> (out: (Vec<BonusAction>, Result<(), BonusError>))
        requires
            profile matches Some(p) ==> profile_wf(*p),
            old(self).phase != Phase::Idle ==> old(self).handoff is Some,
        ensures
            ({
                let (c, a, r) = tick_spec(
                    *old(self),
                    match profile {
                        Some(p) => Some(*p),
                        None => None,
                    },
                    align,
                    lid,
                    now,
                );
                *final(self) == c && out.0@ == a && out.1 == r
            }),
    {
        let mut actions: Vec<BonusAction> = Vec::new();
        match profile {
            Some(p) => {
                self.poll_limit(p, now, &mut actions);
                match self.manual_limit(p, now, &mut actions) {
                    Err(e) => {
                        return (actions, Err(e));
                    },
                    Ok(()) => {},
                }
            },
            None => {},
        }
        self.expire(now, &mut actions);
        if self.phase == Phase::Idle {
            return (actions, Ok(()));
        }
        let p = match profile {
            None => {
                return (actions, Err(BonusError::NotConfigured));
            },
            Some(p) => p,
        };
        let in_time = match self.cycle_started {
            Some(s) => since_exec(now, s) <= p.cycle_timeout_ms,
            None => false,
        };
        if !in_time {
            return (actions, Err(BonusError::Timeout));
        }
        let r = self.phase_step(p, align, lid, now, &mut actions);
        (actions, r)
    }

    /// Starts a cycle to the box `index`; returns the actions to send, in
    /// order, and whether it started.
    pub fn begin_cycle(&mut self, p: &BonusProfile, index: usize, now: u64) -> (out: (Vec<BonusAction>, Result<(), BonusError>))
        requires
            profile_wf(*p),
        ensures
            ({
                let (c, a, r) = begin_spec(*old(self), *p, index, now);
                *final(self) == c && out.0@ == a && out.1 == r
            }),
    {
        let mut actions: Vec<BonusAction> = Vec::new();
        if self.phase != Phase::Idle {
            return (actions, Err(BonusError::Busy));
        }
        let lim = match self.limit_reached(p, now) {
            Err(e) => {
                return (actions, Err(e));
            },
            Ok(l) => l,
        };
        let handoff = match self.handoff {
            None => {
                return (actions, Err(BonusError::NoHandoff));
            },
            Some(h) => h,
        };
        let (encoder, seen) = match self.encoder {
            None => {
                return (actions, Err(BonusError::NoEncoder));
            },
            Some(e) => e,
        };
        if since_exec(now, seen) >= READING_MS {
            return (actions, Err(BonusError::StaleEncoderAtStart));
        }
        if index >= p.box_offsets.len() {
            return (actions, Err(BonusError::BadBox));
        }
        let target = match handoff.checked_add(p.box_offsets[index]) {
            None => {
                return (actions, Err(BonusError::BoxOutOfRange));
            },
            Some(t) => t,
        };
        let error: i64 = target as i64 - encoder as i64;
        let s = sign_exec(error);
        if lim == Some(true) && match p.handoff_direction {
            Some(d) => s == d as i16,
            None => false,
        } {
            return (actions, Err(BonusError::IntoLimit));
        }
        let magnitude_error: i64 = if error < 0 {
            -error
        } else {
            error
        };
        let there = magnitude_error <= p.selector_tolerance_counts as i64;
        self.selected_box = index;
        self.phase = if there {
            Phase::AlignOut
        } else {
            Phase::ToBox(target)
        };
        self.cycle_started = Some(now);
        actions.push(BonusAction::Dc(0, 0, 0));
        let magnitude: u16 = if magnitude_error <= p.selector_slow_zone_counts as i64 {
            p.selector_slow_duty
        } else {
            p.selector_duty
        };
        let m: i16 = magnitude as i16;
        let duty: i16 = if there {
            0
        } else if s > 0 {
            m
        } else if s < 0 {
            -m
        } else {
            0
        };
        proof {
            let e = error as int;
            let mag = if abs(e) <= p.selector_slow_zone_counts {
                p.selector_slow_duty as int
            } else {
                p.selector_duty as int
            };
            assert(magnitude as int == mag);
            assert(m as int == mag);
            let sd = selector_direction(*p, e, false);
            if !there {
                if s > 0 {
                    assert(sd * mag == mag) by (nonlinear_arith)
                        requires
                            sd == 1,
                    ;
                } else if s < 0 {
                    assert(sd * mag == -mag) by (nonlinear_arith)
                        requires
                            sd == -1,
                    ;
                } else {
                    assert(sd * mag == 0) by (nonlinear_arith)
                        requires
                            sd == 0,
                    ;
                }
                assert(duty as int == selector_duty_spec(*p, e, false));
            }
        }
        let ghost c1 = *self;
        self.dc(duty, true, now, &mut actions);
        actions.push(BonusAction::Dc(2, 1, 0));
        assert(actions@ =~= seq![BonusAction::Dc(0, 0, 0)] + dc_spec(c1, duty, true, now).1 + seq![
            BonusAction::Dc(2, 1, 0),
        ]);
        if there {
            let r = self.servo(p, Servo::Align, p.align_position, now, &mut actions);
            return (actions, r);
        }
        (actions, Ok(()))
    }

    /// Decides on an operator request; returns what to send, in order, and
    /// the answer. A cycle that a request starts runs as `begin_cycle` says.
    pub fn request(
        &mut self,
        profile: Option<&BonusProfile>,
        g: BonusGate,
        req: BonusRequest,
        now: u64,
    ) -> (out: (Vec<BonusAction>, Result<BonusReply, BonusError>))
        requires
            profile matches Some(p) ==> profile_wf(*p),
            req is Receive ==> (profile matches Some(p) ==> p.capacity >= 1),
            req is Jog ==> now <= u64::MAX - MANUAL_MS,
        ensures
            ({
                let (c, a, r) = request_spec(
                    *old(self),
                    match profile {
                        Some(p) => Some(*p),
                        None => None,
                    },
                    g,
                    req,
                    now,
                );
                *final(self) == c && out.0@ == a && out.1 == r
            }),
    {
        let mut actions: Vec<BonusAction> = Vec::new();
        if !(g.fresh && g.setup && !g.emergency) {
            return (actions, Err(BonusError::Unavailable));
        }
        if g.other_motion {
            return (actions, Err(BonusError::OtherMotion));
        }
        let p = match profile {
            None => {
                return (actions, Err(BonusError::NotConfigured));
            },
            Some(p) => p,
        };
        let manual = self.phase == Phase::Idle && !self.semi_auto;
        match req {
            BonusRequest::Mode(flag) => {
                if self.phase != Phase::Idle {
                    return (actions, Err(BonusError::StopToSwitch));
                }
                match flag {
                    None => (actions, Err(BonusError::ModeRequired)),
                    Some(f) => {
                        self.semi_auto = f;
                        (actions, Ok(BonusReply::Accepted))
                    },
                }
            },
            BonusRequest::Capture => {
                if self.phase != Phase::Idle {
                    return (actions, Err(BonusError::StopFirst));
                }
                match self.encoder {
                    None => (actions, Err(BonusError::NoEncoder)),
                    Some((count, seen)) => {
                        if since_exec(now, seen) >= READING_MS {
                            return (actions, Err(BonusError::StaleEncoderAtCapture));
                        }
                        self.handoff = Some(count);
                        (actions, Ok(BonusReply::Captured(count)))
                    },
                }
            },
            BonusRequest::Select(index) => match index {
                None => (actions, Err(BonusError::BoxRequired)),
                Some(i) => {
                    if i >= p.box_offsets.len() {
                        return (actions, Err(BonusError::BadBox));
                    }
                    self.selected_box = i;
                    (actions, Ok(BonusReply::Accepted))
                },
            },
            BonusRequest::Receive(count) => {
                let n: i64 = match count {
                    Some(n) => n,
                    None => 3,
                };
                let added: u8 = if n < 1 {
                    1
                } else if n > p.capacity as i64 {
                    p.capacity
                } else {
                    n as u8
                };
                let sum: u16 = self.loaded as u16 + added as u16;
                let loaded: u8 = if sum > p.capacity as u16 {
                    p.capacity
                } else {
                    sum as u8
                };
                self.loaded = loaded;
                if self.semi_auto && loaded >= p.capacity {
                    let selected = self.selected_box;
                    let (a, r) = self.begin_cycle(p, selected, now);
                    return (a, match r {
                        Ok(()) => Ok(BonusReply::Accepted),
                        Err(e) => Err(e),
                    });
                }
                (actions, Ok(BonusReply::Accepted))
            },
            BonusRequest::Reset => {
                self.loaded = 0;
                (actions, Ok(BonusReply::Accepted))
            },
            BonusRequest::Shoot(index) => {
                let i = match index {
                    Some(i) => i,
                    None => self.selected_box,
                };
                let (a, r) = self.begin_cycle(p, i, now);
                (a, match r {
                    Ok(()) => Ok(BonusReply::Accepted),
                    Err(e) => Err(e),
                })
            },
            BonusRequest::Jog(duty) => {
                if !manual {
                    return (actions, Err(BonusError::ManualOnly));
                }
                let d = match duty {
                    None => {
                        return (actions, Err(BonusError::DirectionRequired));
                    },
                    Some(d) => d,
                };
                let toward = match p.handoff_direction {
                    Some(dir) => sign_exec(d as i64) == dir as i16,
                    None => false,
                };
                let blocked = if toward {
                    match self.limit_reached(p, now) {
                        Err(e) => {
                            return (actions, Err(e));
                        },
                        Ok(l) => l == Some(true),
                    }
                } else {
                    false
                };
                if blocked || d == 0 {
                    self.dc(0, true, now, &mut actions);
                    actions.push(BonusAction::Dc(3, 0, 0));
                    self.manual_until = None;
                    return (actions, Ok(
                        if blocked {
                            BonusReply::LimitStop
                        } else {
                            BonusReply::Accepted
                        },
                    ));
                }
                actions.push(BonusAction::Dc(0, 0, 0));
                self.dc(d, true, now, &mut actions);
                actions.push(BonusAction::Dc(2, 1, 0));
                self.manual_until = Some(now + MANUAL_MS);
                (actions, Ok(BonusReply::Accepted))
            },
            BonusRequest::Lid(flag) => {
                if !manual {
                    return (actions, Err(BonusError::ManualOnly));
                }
                let position = if flag == Some(true) {
                    p.lid_open_position
                } else {
                    p.lid_closed_position
                };
                match self.servo(p, Servo::Lid, position, now, &mut actions) {
                    Err(e) => (actions, Err(e)),
                    Ok(()) => (actions, Ok(BonusReply::Accepted)),
                }
            },
            BonusRequest::Align(flag) => {
                if !manual {
                    return (actions, Err(BonusError::ManualOnly));
                }
                let position = if flag == Some(true) {
                    p.align_position
                } else {
                    p.align_home_position
                };
                match self.servo(p, Servo::Align, position, now, &mut actions) {
                    Err(e) => (actions, Err(e)),
                    Ok(()) => (actions, Ok(BonusReply::Accepted)),
                }
            },
            BonusRequest::Unknown => (actions, Err(BonusError::Unsupported)),
        }
    }

    fn pad_step(&mut self, p: &BonusProfile, g: BonusGate, step: PadStep, now: u64, out: &mut Vec<BonusAction>) -> (r: Result<(), BonusError>)
        requires
            profile_wf(*p),
            step == PadStep::Receive ==> p.capacity >= 1,
            now <= u64::MAX - MANUAL_MS,
            p.box_offsets@.len() < usize::MAX / 2,
            (step == PadStep::PrevBox || step == PadStep::NextBox) ==> p.box_offsets@.len() > 0,
            step is Jog ==> (step->Jog_0 == -1 || step->Jog_0 == 0 || step->Jog_0 == 1),
        ensures
            *final(self) == pad_step_spec(*old(self), *p, g, step, now).0,
            final(out)@ == old(out)@ + pad_step_spec(*old(self), *p, g, step, now).1,
            r == pad_step_spec(*old(self), *p, g, step, now).2,
    {
        proof {
            reveal(pad_step_spec);
        }
        let req = match step {
            PadStep::Mode => BonusRequest::Mode(Some(!self.semi_auto)),
            PadStep::Capture => BonusRequest::Capture,
            PadStep::Receive => BonusRequest::Receive(Some(3)),
            PadStep::Shoot => BonusRequest::Shoot(Some(self.selected_box)),
            PadStep::PrevBox => {
                let boxes = p.box_offsets.len();
                let at = self.selected_box % boxes;
                let next = (at + boxes - 1) % boxes;
                proof {
                    let b = boxes as int;
                    let sel = self.selected_box as int;
                    vstd::arithmetic::div_mod::lemma_add_mod_noop(sel, b - 1, b);
                    vstd::arithmetic::div_mod::lemma_mod_bound(sel, b);
                    vstd::arithmetic::div_mod::lemma_small_mod((b - 1) as nat, b as nat);
                    assert(next as int == (sel + b - 1) % b);
                }
                self.selected_box = next;
                assert(out@ =~= old(out)@ + Seq::<BonusAction>::empty());
                return Ok(());
            },
            PadStep::NextBox => {
                let boxes = p.box_offsets.len();
                let at = self.selected_box % boxes;
                let next = (at + 1) % boxes;
                proof {
                    let b = boxes as int;
                    let sel = self.selected_box as int;
                    vstd::arithmetic::div_mod::lemma_add_mod_noop(sel, 1, b);
                    vstd::arithmetic::div_mod::lemma_mod_bound(sel, b);
                    if b > 1 {
                        vstd::arithmetic::div_mod::lemma_small_mod(1, b as nat);
                    } else {
                        assert((sel % b + 1int % b) % b == (at as int + 1) % b) by (nonlinear_arith)
                            requires
                                b == 1,
                                at as int == sel % b,
                        ;
                    }
                    assert(next as int == (sel + 1) % b);
                }
                self.selected_box = next;
                assert(out@ =~= old(out)@ + Seq::<BonusAction>::empty());
                return Ok(());
            },
            PadStep::Jog(d) => {
                if self.semi_auto {
                    assert(out@ =~= old(out)@ + Seq::<BonusAction>::empty());
                    return Ok(());
                }
                let m = p.selector_duty as i16;
                let duty: i16 = if d > 0 {
                    m
                } else if d < 0 {
                    -m
                } else {
                    0
                };
                proof {
                    let dd = d as int;
                    let mm = p.selector_duty as int;
                    if d > 0 {
                        assert(dd * mm == mm) by (nonlinear_arith)
                            requires
                                dd == 1,
                        ;
                    } else if d < 0 {
                        assert(dd * mm == -mm) by (nonlinear_arith)
                            requires
                                dd == -1,
                        ;
                    } else {
                        assert(dd * mm == 0) by (nonlinear_arith)
                            requires
                                dd == 0,
                        ;
                    }
                    assert(duty == (d * p.selector_duty) as i16);
                }
                BonusRequest::Jog(Some(duty))
            },
            PadStep::Align(o) => {
                if self.semi_auto {
                    assert(out@ =~= old(out)@ + Seq::<BonusAction>::empty());
                    return Ok(());
                }
                BonusRequest::Align(Some(o))
            },
            PadStep::Lid(o) => {
                if self.semi_auto {
                    assert(out@ =~= old(out)@ + Seq::<BonusAction>::empty());
                    return Ok(());
                }
                BonusRequest::Lid(Some(o))
            },
        };
        let (a, r) = self.request(Some(p), g, req, now);
        let mut a = a;
        let ghost a_seq = a@;
        out.append(&mut a);
        assert(out@ =~= old(out)@ + a_seq);
        match r {
            Ok(_) => Ok(()),
            Err(e) => Err(e),
        }
    }

    /// The bonus layer of the gamepad, while its layer button is held: the steps that the
    /// buttons ask for, run in order until one fails. Returns what to send
    /// and whether every step went through.
    pub fn pad_layer(
        &mut self,
        p: &BonusProfile,
        g: BonusGate,
        buttons: &[u8; 17],
        previous: &[u8; 17],
        now: u64,
    ) -> (out: (Vec<BonusAction>, Result<(), BonusError>))
        requires
            profile_wf(*p),
            pressed(buttons@, previous@, 0) ==> p.capacity >= 1,
            now <= u64::MAX - MANUAL_MS,
            p.box_offsets@.len() < usize::MAX / 2,
        ensures
            ({
                let (c, a, r) = pad_run_spec(
                    *old(self),
                    *p,
                    g,
                    pad_steps(buttons@, previous@, p.box_offsets@.len()),
                    now,
                );
                *final(self) == c && out.0@ == a && out.1 == r
            }),
    {
        let steps = pad_steps_exec(buttons, previous, p.box_offsets.len());
        proof {
            reveal(steps_ok);
        }
        let mut actions: Vec<BonusAction> = Vec::new();
        let mut i: usize = 0;
        let ghost start = *self;
        let ghost all = steps@;
        assert(all.skip(0) =~= all);
        assert(Seq::<BonusAction>::empty() + pad_run_spec(start, *p, g, all, now).1 =~= pad_run_spec(start, *p, g, all, now).1);
        while i < steps.len()
            invariant
                profile_wf(*p),
                now <= u64::MAX - MANUAL_MS,
                p.box_offsets@.len() < usize::MAX / 2,
                steps@ == all,
                start == *old(self),
                all == pad_steps(buttons@, previous@, p.box_offsets@.len()),
                forall|k: int| 0 <= k < all.len() ==> step_ok(#[trigger] all[k], buttons@, previous@, p.box_offsets@.len()),
                pressed(buttons@, previous@, 0) ==> p.capacity >= 1,
                i <= all.len(),
                pad_run_spec(start, *p, g, all, now).0 == pad_run_spec(*self, *p, g, all.skip(i as int), now).0,
                pad_run_spec(start, *p, g, all, now).1 == actions@ + pad_run_spec(*self, *p, g, all.skip(i as int), now).1,
                pad_run_spec(start, *p, g, all, now).2 == pad_run_spec(*self, *p, g, all.skip(i as int), now).2,
            decreases all.len() - i,
        {
            let step = steps[i];
            let ghost rest = all.skip(i as int);
            assert(rest[0] == step);
            assert(rest.drop_first() =~= all.skip(i + 1));
            assert(step_ok(all[i as int], buttons@, previous@, p.box_offsets@.len()));
            let ghost before = *self;
            let ghost acts = actions@;
            let r = self.pad_step(p, g, step, now, &mut actions);
            proof {
                let (c1, a1, r1) = pad_step_spec(before, *p, g, step, now);
                assert(actions@ == acts + a1);
                if r1 is Err {
                    assert(pad_run_spec(before, *p, g, rest, now) == (c1, a1, r1));
                } else {
                    let (c2, a2, r2) = pad_run_spec(c1, *p, g, all.skip(i + 1), now);
                    assert(pad_run_spec(before, *p, g, rest, now) == (c2, a1 + a2, r2));
                    assert(acts + (a1 + a2) =~= actions@ + a2);
                }
            }
            match r {
                Err(e) => {
                    return (actions, Err(e));
                },
                Ok(()) => {},
            }
            i = i + 1;
        }
        proof {
            assert(all.skip(i as int) =~= Seq::<PadStep>::empty());
            assert(actions@ + Seq::<BonusAction>::empty() =~= actions@);
        }
        (actions, Ok(()))
    }

    fn dc(&mut self, duty: i16, force: bool, now: u64, out: &mut Vec<BonusAction>)
        ensures
            *final(self) == dc_spec(*old(self), duty, force, now).0,
            final(out)@ == old(out)@ + dc_spec(*old(self), duty, force, now).1,
    {
        let due = force || match self.last_dc {
            None => true,
            Some((old, at)) => old != duty || since_exec(now, at) >= DC_REPEAT_MS,
        };
        if due {
            out.push(BonusAction::Dc(4, 0, duty));
            self.last_dc = Some((duty, now));
        }
        proof {
            if !due {
                assert(out@ =~= old(out)@ + Seq::<BonusAction>::empty());
            }
        }
    }

    fn servo(&mut self, p: &BonusProfile, which: Servo, position: i16, now: u64, out: &mut Vec<BonusAction>) -> (r: Result<(), BonusError>)
        ensures
            match servo_spec(*old(self), *p, which, position, now) {
                Ok((c, a)) => r == Ok::<(), BonusError>(()) && *final(self) == c && final(out)@ == old(out)@ + a,
                Err(e) => r == Err::<(), BonusError>(e) && *final(self) == *old(self) && final(out)@ == old(out)@,
            },
    {
        let setting = match which {
            Servo::Align => &p.align_servo,
            Servo::Lid => &p.lid_servo,
        };
        match setting {
            None => Err(BonusError::NoServo),
            Some(s) => {
                if !s.enabled {
                    return Err(BonusError::ServoDisabled(which));
                }
                out.push(BonusAction::Target(which, position));
                self.servo_started = Some(now);
                self.sts_holding = true;
                Ok(())
            },
        }
    }

    fn limit_reached(&self, p: &BonusProfile, now: u64) -> (r: Result<Option<bool>, BonusError>)
        ensures
            r == limit_spec(*self, *p, now),
    {
        match p.handoff_direction {
            None => Ok(None),
            Some(_) => match self.limit {
                None => Err(BonusError::NoLimit),
                Some((reached, seen)) => if since_exec(now, seen) >= READING_MS {
                    Err(BonusError::LimitStale)
                } else {
                    Ok(Some(reached))
                },
            },
        }
    }

    fn arrived(&self, p: &BonusProfile, which: Servo, target: i16, reading: Option<ServoReading>, now: u64) -> (b: bool)
        ensures
            b == arrived_spec(*self, *p, which, target, reading, now),
    {
        let configured = match which {
            Servo::Align => p.align_servo.is_some(),
            Servo::Lid => p.lid_servo.is_some(),
        };
        if !configured {
            return false;
        }
        match reading {
            None => false,
            Some(f) => {
                let started_ok = match self.servo_started {
                    Some(started) => f.seen_ms >= started,
                    None => false,
                };
                let d: i64 = f.position as i64 - target as i64;
                let a: i64 = if d < 0 {
                    -d
                } else {
                    d
                };
                since_exec(now, f.seen_ms) < READING_MS && f.error == 0 && started_ok && a
                    <= p.servo_tolerance_counts as i64
            },
        }
    }
}

/// The servo and position that a servo phase of the cycle waits for: the
/// aligner out, then home; the lid open, then closed.
pub open spec fn phase_goal(p: BonusProfile, ph: Phase) -> Option<(Servo, i16)> {
    match ph {
        Phase::AlignOut => Some((Servo::Align, p.align_position)),
        Phase::AlignHome => Some((Servo::Align, p.align_home_position)),
        Phase::LidOpen => Some((Servo::Lid, p.lid_open_position)),
        Phase::LidClose => Some((Servo::Lid, p.lid_closed_position)),
        _ => None,
    }
}

/// The reading of a servo among the two given.
pub open spec fn reading_of(
    which: Servo,
    align: Option<ServoReading>,
    lid: Option<ServoReading>,
) -> Option<ServoReading> {
    if which == Servo::Align {
        align
    } else {
        lid
    }
}

/// A pass of the cycle that enters a servo phase sends that servo to the
/// position the phase waits for; and a servo phase is left for another
/// phase of the cycle only once its servo has reached its own position.
pub proof fn lemma_phase_targets(
    c: Bonus,
    p: BonusProfile,
    align: Option<ServoReading>,
    lid: Option<ServoReading>,
    now: u64,
)
    ensures
        ({
            let r = phase_spec(c, p, align, lid, now);
            r.0.phase != c.phase ==> (phase_goal(p, r.0.phase) matches Some((s, pos))
                ==> r.1.contains(BonusAction::Target(s, pos)))
        }),
        ({
            let r = phase_spec(c, p, align, lid, now);
            phase_goal(p, c.phase) matches Some((s, pos)) ==> ((r.0.phase != c.phase && r.0.phase
                != Phase::Idle) ==> arrived_spec(c, p, s, pos, reading_of(s, align, lid), now))
        }),
{
    let r = phase_spec(c, p, align, lid, now);
    if r.0.phase != c.phase && phase_goal(p, r.0.phase) is Some {
        let (s, pos) = phase_goal(p, r.0.phase)->Some_0;
        match c.phase {
            Phase::ToBox(t) => {
                assert(r.1[r.1.len() - 1] == BonusAction::Target(s, pos));
            },
            Phase::Return(t) => {},
            _ => {
                assert(r.1[1] == BonusAction::Target(s, pos));
            },
        }
    }
}

/// The same over a whole pass of the bonus hand: entering a servo phase
/// sends that servo to the position the phase waits for.
pub proof fn lemma_tick_targets(
    c: Bonus,
    profile: Option<BonusProfile>,
    align: Option<ServoReading>,
    lid: Option<ServoReading>,
    now: u64,
)
    ensures
        ({
            let r = tick_spec(c, profile, align, lid, now);
            profile matches Some(p) ==> (r.0.phase != c.phase ==> (phase_goal(p, r.0.phase) matches Some(
                (s, pos),
            ) ==> r.1.contains(BonusAction::Target(s, pos))))
        }),
{
    let r = tick_spec(c, profile, align, lid, now);
    if let Some(p) = profile {
        if r.0.phase != c.phase && phase_goal(p, r.0.phase) is Some {
            let (s, pos) = phase_goal(p, r.0.phase)->Some_0;
            let (c0, a0) = poll_limit_spec(c, p, now);
            let m = manual_limit_spec(c0, p, now);
            let (c1, a1) = m->Ok_0;
            let (c2, a2) = expire_spec(c1, now);
            assert(c2.phase == c.phase);
            lemma_phase_targets(c2, p, align, lid, now);
            let q = phase_spec(c2, p, align, lid, now);
            let j = choose|j: int| 0 <= j < q.1.len() && q.1[j] == BonusAction::Target(s, pos);
            let pre = a0 + a1 + a2;
            assert(r.1 == pre + q.1);
            assert(r.1[pre.len() + j] == BonusAction::Target(s, pos));
        }
    }
}

} // verus!
