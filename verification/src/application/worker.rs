//! The single worker that owns the machine link and the right to operate.
use vstd::prelude::*;
use vstd::string::*;
use crate::dcmd::line;
use crate::diagnostics::fw_test::can_line;
use crate::text::views;

pub mod bonus;
pub mod halt;
pub mod health;
pub mod link;
pub mod manual_origins;
pub mod pad;
pub mod pad_guide;
pub mod preparation;
pub mod readiness;
pub mod report;
pub mod requests;
pub mod sequence_gate;
pub mod sts_control;
pub mod test_control;

verus! {

/// Whether driving is stopped, requested (since when, ms) or confirmed by the board.
/// A RUN request is accepted before the board applies it.
#[derive(Clone, Copy, Debug, PartialEq, Eq, Structural)]
pub enum DriveState {
    Stopped,
    AwaitingRun(u64),
    Running,
}

impl DriveState {
    /// Whether the board confirmed driving.
    pub fn running(self) -> (b: bool)
        ensures
            b == (self == DriveState::Running),
    {
        matches!(self, DriveState::Running)
    }

    /// When RUN was requested, while the board has not confirmed it yet.
    pub fn awaiting(self) -> (r: Option<u64>)
        ensures
            r == (match self {
                DriveState::AwaitingRun(sent) => Some(sent),
                _ => None,
            }),
    {
        match self {
            DriveState::AwaitingRun(sent) => Some(sent),
            _ => None,
        }
    }
}

/// What the status summary reads from the worker.
#[derive(Clone, Copy, Debug)]
pub struct Activity {
    pub emergency: bool,
    /// The machine report is current.
    pub fresh: bool,
    pub homing: bool,
    pub sequence: bool,
    /// The end effector has targets.
    pub ee_targets: bool,
    /// A bonus cycle runs.
    pub bonus_active: bool,
    /// The bonus hand drives a cycle, a manual command or a held servo.
    pub bonus_outputs: bool,
    /// A servo motion is followed.
    pub sts_active: bool,
    /// An individual test output is on.
    pub test_active: bool,
    pub drive: DriveState,
    /// The board reports that it drives with some axis enabled.
    pub board_driving: bool,
    /// The board reports some axis held.
    pub held: bool,
}

/// Whether anything may move or hold: the summary's warning light.
pub open spec fn outputs_active_spec(a: Activity) -> bool {
    a.homing || a.ee_targets || a.bonus_outputs || a.sts_active || a.test_active
        || a.drive is AwaitingRun || a.board_driving || a.held
}

/// The operating state shown to the operator, most urgent first.
pub open spec fn operating_state_spec(a: Activity) -> Seq<char> {
    if a.emergency {
        "ソフト緊停中"@
    } else if !a.fresh {
        "接続断 / 状態不明"@
    } else if a.homing {
        "r・zホーミング中"@
    } else if a.sequence {
        "シーケンス実行中"@
    } else if a.bonus_active {
        "ボーナスハンド動作中"@
    } else if a.test_active {
        "個別テスト出力中"@
    } else if a.drive == DriveState::Running {
        "運転中"@
    } else if a.drive is AwaitingRun {
        "運転応答待ち"@
    } else if a.held {
        "出力停止・z保持"@
    } else if outputs_active_spec(a) {
        "停止・保持"@
    } else {
        "全トルク解除"@
    }
}

/// Whether anything may move or hold.
pub fn outputs_active(a: Activity) -> (b: bool)
    ensures
        b == outputs_active_spec(a),
{
    a.homing || a.ee_targets || a.bonus_outputs || a.sts_active || a.test_active
        || a.drive.awaiting().is_some() || a.board_driving || a.held
}

/// The operating state of the status summary.
pub fn operating_state(a: Activity) -> (s: &'static str)
    ensures
        s@ == operating_state_spec(a),
{
    if a.emergency {
        "ソフト緊停中"
    } else if !a.fresh {
        "接続断 / 状態不明"
    } else if a.homing {
        "r・zホーミング中"
    } else if a.sequence {
        "シーケンス実行中"
    } else if a.bonus_active {
        "ボーナスハンド動作中"
    } else if a.test_active {
        "個別テスト出力中"
    } else if a.drive.running() {
        "運転中"
    } else if a.drive.awaiting().is_some() {
        "運転応答待ち"
    } else if a.held {
        "出力停止・z保持"
    } else if outputs_active(a) {
        "停止・保持"
    } else {
        "全トルク解除"
    }
}

/// The configuration state of the status summary.
pub open spec fn configuration_spec(setup_error: bool, configured: bool) -> Seq<char> {
    if setup_error {
        "反映失敗"@
    } else if configured {
        "基板で反映確認済み"@
    } else {
        "反映確認待ち"@
    }
}

/// The configuration state: failed, confirmed by the board, or awaited.
pub fn configuration_state(setup_error: bool, configured: bool) -> (s: &'static str)
    ensures
        s@ == configuration_spec(setup_error, configured),
{
    if setup_error {
        "反映失敗"
    } else if configured {
        "基板で反映確認済み"
    } else {
        "反映確認待ち"
    }
}

/// The lines that keep the outputs alive, sent on each pass while the
/// machine report is current: cctl's heartbeat, then the keep-alive of each
/// peripheral board that the profile names.
pub open spec fn keepalive_spec(fresh: bool, pwm_servos: bool, dc_motors: bool, serial_svmd: bool) -> Seq<
    Seq<char>,
> {
    if !fresh {
        Seq::empty()
    } else {
        seq!["HEARTBEAT"@] + (if pwm_servos {
            seq!["CAN 2 768 0103000000000000"@]
        } else {
            Seq::empty()
        }) + (if dc_motors {
            seq![can_line(784, 5, 0, 0, 0)]
        } else {
            Seq::empty()
        }) + (if serial_svmd {
            seq!["CAN 2 800 0105000000000000"@]
        } else {
            Seq::empty()
        })
    }
}

/// The keep-alive lines of one pass.
pub fn keepalive_lines(fresh: bool, pwm_servos: bool, dc_motors: bool, serial_svmd: bool) -> (v: Vec<
    String,
>)
    ensures
        views(v@) == keepalive_spec(fresh, pwm_servos, dc_motors, serial_svmd),
{
    let mut v: Vec<String> = Vec::new();
    if !fresh {
        assert(views(v@) =~= Seq::<Seq<char>>::empty());
        return v;
    }
    v.push(String::from_str("HEARTBEAT"));
    let ghost a = views(v@);
    assert(a =~= seq!["HEARTBEAT"@]);
    if pwm_servos {
        v.push(String::from_str("CAN 2 768 0103000000000000"));
    }
    let ghost b = views(v@);
    assert(b =~= a + (if pwm_servos {
        seq!["CAN 2 768 0103000000000000"@]
    } else {
        Seq::<Seq<char>>::empty()
    }));
    if dc_motors {
        v.push(line(5, 0, 0));
    }
    let ghost c = views(v@);
    assert(c =~= b + (if dc_motors {
        seq![can_line(784, 5, 0, 0, 0)]
    } else {
        Seq::<Seq<char>>::empty()
    }));
    if serial_svmd {
        v.push(String::from_str("CAN 2 800 0105000000000000"));
    }
    assert(views(v@) =~= c + (if serial_svmd {
        seq!["CAN 2 800 0105000000000000"@]
    } else {
        Seq::<Seq<char>>::empty()
    }));
    v
}

/// How long a screen input holds without being renewed, in milliseconds.
pub const SCREEN_INPUT_MS: u64 = 150;

/// Whether a screen input set at `stamp` has lapsed at `now`.
pub open spec fn lapsed(stamp: Option<u64>, now: u64) -> bool {
    stamp matches Some(t) && t < now && now - t > SCREEN_INPUT_MS
}

/// The indices, in increasing order, of the lapsed inputs among the first `n`.
pub open spec fn lapsed_upto(stamps: Seq<Option<u64>>, now: u64, n: int) -> Seq<usize>
    decreases n,
{
    if n <= 0 {
        Seq::empty()
    } else {
        lapsed_upto(stamps, now, n - 1) + if lapsed(stamps[n - 1], now) {
            seq![(n - 1) as usize]
        } else {
            Seq::empty()
        }
    }
}

/// Forgets the screen inputs that were not renewed in time, and returns the
/// axes whose input goes back to zero.
pub fn expire_screen_inputs(stamps: &mut Vec<Option<u64>>, now: u64) -> (r: Vec<usize>)
    ensures
        final(stamps)@.len() == old(stamps)@.len(),
        forall|i: int|
            0 <= i < old(stamps)@.len() ==> #[trigger] final(stamps)@[i] == if lapsed(
                old(stamps)@[i],
                now,
            ) {
                None
            } else {
                old(stamps)@[i]
            },
        r@ == lapsed_upto(old(stamps)@, now, old(stamps)@.len() as int),
{
    let ghost before = stamps@;
    let mut r: Vec<usize> = Vec::new();
    let mut i: usize = 0;
    while i < stamps.len()
        invariant
            stamps@.len() == before.len(),
            i <= before.len(),
            forall|j: int|
                0 <= j < i ==> #[trigger] stamps@[j] == if lapsed(before[j], now) {
                    None
                } else {
                    before[j]
                },
            forall|j: int| i <= j < before.len() ==> #[trigger] stamps@[j] == before[j],
            r@ == lapsed_upto(before, now, i as int),
        decreases before.len() - i,
    {
        let due = match stamps[i] {
            Some(t) => t < now && now - t > SCREEN_INPUT_MS,
            None => false,
        };
        if due {
            stamps.set(i, None);
            r.push(i);
        }
        assert(r@ =~= lapsed_upto(before, now, i + 1));
        i = i + 1;
    }
    r
}

} // verus!
