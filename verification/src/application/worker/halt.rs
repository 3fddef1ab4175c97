//! How the worker stops: when it cuts every output and when it holds the
//! arm where it is, what a fault does to the match preparation, and when a
//! lost link is worth a log line.
use vstd::prelude::*;
use vstd::string::*;
use crate::application::app_state::PreparationPhase;
use crate::text::{dec, push_dec};

verus! {

/// What the worker knows when it stops.
#[derive(Clone, Copy, Debug)]
pub struct HaltState {
    pub phase: PreparationPhase,
    /// The machine report is current.
    pub fresh: bool,
    /// RUN was sent and the board has not confirmed it yet.
    pub awaiting_run: bool,
    pub test_enabled: bool,
    pub homing: bool,
    /// A servo motion is followed.
    pub sts_active: bool,
    /// The end effector has targets.
    pub ee_targets: bool,
    /// The bonus mechanism drives an output.
    pub bonus_outputs: bool,
    /// The board reports that it drives.
    pub running: bool,
}

/// One thing the worker sends when it stops.
#[derive(Clone, Copy, Debug, PartialEq, Eq, Structural)]
pub enum HaltAction {
    /// STOP to cctl: every output off.
    Cut,
    /// The stop line of every peripheral board in use.
    Peripherals,
    /// Hold each enabled axis where it is.
    Hold,
}

/// What a stop does.
pub struct HaltPlan {
    /// The preparation phase afterwards.
    pub phase: PreparationPhase,
    /// Every output is cut (not only held).
    pub cut: bool,
    /// What to send, in order. Sending goes on after a failure while the
    /// report is stale.
    pub actions: Vec<HaltAction>,
    /// The state shown to the operator.
    pub reason: String,
}

pub open spec fn halt_cut(s: HaltState, cut: bool) -> bool {
    cut || s.awaiting_run || s.test_enabled || s.homing
}

pub open spec fn halt_actions(s: HaltState, cut: bool) -> Seq<HaltAction> {
    let c = halt_cut(s, cut);
    let stop_ee = s.sts_active || s.ee_targets || s.bonus_outputs;
    (if !s.fresh || c {
        seq![HaltAction::Cut, HaltAction::Peripherals]
    } else if s.running {
        seq![HaltAction::Hold]
    } else {
        Seq::empty()
    }) + if !c && stop_ee {
        seq![HaltAction::Peripherals]
    } else {
        Seq::empty()
    }
}

pub open spec fn halt_reason(cut: bool) -> Seq<char> {
    if cut {
        "全トルク解除。原点と姿勢を確認して再開"@
    } else {
        "停止・保持中。再開操作を待っています"@
    }
}

/// The preparation phase after a stop: waiting for the start turns into recovery.
pub open spec fn halt_phase(phase: PreparationPhase) -> PreparationPhase {
    if phase == PreparationPhase::Waiting {
        PreparationPhase::Recovery
    } else {
        phase
    }
}

/// Plans a stop. A cut is forced while RUN awaits its answer (what to hold
/// is not settled yet), in test mode and while homing. Without a current
/// report the worker cuts as well, whatever came before; otherwise a running
/// machine holds its axes, and the peripheral outputs stop when the end
/// effector, a servo motion or the bonus mechanism were in use.
pub fn halt(s: HaltState, cut: bool) -> (p: HaltPlan)
    ensures
        p.phase == halt_phase(s.phase),
        p.cut == halt_cut(s, cut),
        p.actions@ == halt_actions(s, cut),
        p.reason@ == halt_reason(halt_cut(s, cut)),
{
    let phase = if s.phase == PreparationPhase::Waiting {
        PreparationPhase::Recovery
    } else {
        s.phase
    };
    let stop_ee = s.sts_active || s.ee_targets || s.bonus_outputs;
    let c = cut || s.awaiting_run || s.test_enabled || s.homing;
    let mut actions: Vec<HaltAction> = Vec::new();
    if !s.fresh || c {
        actions.push(HaltAction::Cut);
        actions.push(HaltAction::Peripherals);
    } else if s.running {
        actions.push(HaltAction::Hold);
    }
    if !c && stop_ee {
        actions.push(HaltAction::Peripherals);
    }
    assert(actions@ =~= halt_actions(s, cut));
    let reason = if c {
        String::from_str("全トルク解除。原点と姿勢を確認して再開")
    } else {
        String::from_str("停止・保持中。再開操作を待っています")
    };
    HaltPlan { phase, cut: c, actions, reason }
}

/// The preparation phase after a fault: any phase but the first setting
/// turns into recovery.
pub open spec fn fault_phase_spec(phase: PreparationPhase) -> PreparationPhase {
    if phase != PreparationPhase::Setting {
        PreparationPhase::Recovery
    } else {
        phase
    }
}

/// The preparation phase after a fault.
pub fn fault_phase(phase: PreparationPhase) -> (p: PreparationPhase)
    ensures
        p == fault_phase_spec(phase),
{
    if phase != PreparationPhase::Setting {
        PreparationPhase::Recovery
    } else {
        phase
    }
}

/// Whether a lost link is logged: only when its cause differs from the one
/// already recorded, so that a repeated failure is logged once.
pub fn log_link_loss(recorded: &Option<String>, reason: &String) -> (b: bool)
    ensures
        b == !(recorded matches Some(r) && r@ == reason@),
{
    match recorded {
        Some(r) => !same_text(r, reason),
        None => true,
    }
}

fn same_text(a: &String, b: &String) -> (r: bool)
    ensures
        r == (a@ == b@),
{
    let x = a.as_str();
    let y = b.as_str();
    let n = x.unicode_len();
    if n != y.unicode_len() {
        return false;
    }
    let mut i: usize = 0;
    while i < n
        invariant
            x@ == a@,
            y@ == b@,
            n == x@.len(),
            n == y@.len(),
            i <= n,
            forall|j: int| 0 <= j < i ==> x@[j] == y@[j],
        decreases n - i,
    {
        if x.get_char(i) != y.get_char(i) {
            assert(x@[i as int] != y@[i as int]);
            return false;
        }
        i = i + 1;
    }
    assert(x@ =~= y@);
    true
}

/// What the worker knows when asked to hold z and release the rest.
#[derive(Clone, Copy, Debug)]
pub struct HoldState {
    pub emergency: bool,
    /// The machine report is current.
    pub fresh: bool,
    /// A report came in.
    pub report: bool,
    /// The firmware reports which axes it holds.
    pub hold_supported: bool,
    /// Bit `n`: the feedback of motor slot `n` stopped.
    pub stale_slots: u8,
    /// The motor slot of the z axis, if the profile names one.
    pub z_slot: Option<u8>,
}

/// Why z cannot be held.
#[derive(Clone, Copy, Debug, PartialEq, Eq, Structural)]
pub enum HoldError {
    Emergency,
    NoAnswer,
    NoReport,
    Unsupported,
    NoZ,
    NoFeedback,
}

pub open spec fn hold_message(e: HoldError) -> Seq<char> {
    match e {
        HoldError::Emergency => "緊停中はz保持を有効化できません"@,
        HoldError::NoAnswer => "通信状態を確認できないためz保持へ移行できません"@,
        HoldError::NoReport => "実測位置がありません"@,
        HoldError::Unsupported => "z保持に対応したCCTLへ書き込んでください"@,
        HoldError::NoZ => "z軸が設定されていません"@,
        HoldError::NoFeedback => "zのフィードバックがありません"@,
    }
}

impl HoldError {
    /// The message shown to the operator.
    pub fn message(self) -> (text: String)
        ensures
            text@ == hold_message(self),
    {
        match self {
            HoldError::Emergency => String::from_str("緊停中はz保持を有効化できません"),
            HoldError::NoAnswer => String::from_str("通信状態を確認できないためz保持へ移行できません"),
            HoldError::NoReport => String::from_str("実測位置がありません"),
            HoldError::Unsupported => String::from_str("z保持に対応したCCTLへ書き込んでください"),
            HoldError::NoZ => String::from_str("z軸が設定されていません"),
            HoldError::NoFeedback => String::from_str("zのフィードバックがありません"),
        }
    }
}

/// The decision on holding z: the slot bit to hold, or why not.
pub open spec fn z_hold_spec(s: HoldState) -> Result<u8, HoldError> {
    if s.emergency {
        Err(HoldError::Emergency)
    } else if !s.fresh {
        Err(HoldError::NoAnswer)
    } else if !s.report {
        Err(HoldError::NoReport)
    } else if !s.hold_supported {
        Err(HoldError::Unsupported)
    } else {
        match s.z_slot {
            None => Err(HoldError::NoZ),
            Some(slot) => if s.stale_slots & (1u8 << slot) != 0 {
                Err(HoldError::NoFeedback)
            } else {
                Ok(1u8 << slot)
            },
        }
    }
}

/// Decides on holding z and gives the line that does it, `HOLD` with the
/// slot bit of z. The worker then stops everything else as in a stop.
pub fn z_hold(s: HoldState) -> (r: Result<String, HoldError>)
    requires
        s.z_slot matches Some(slot) ==> slot < 8,
    ensures
        match r {
            Ok(line) => z_hold_spec(s) is Ok && line@ == "HOLD "@ + dec(z_hold_spec(s)->Ok_0 as nat),
            Err(e) => z_hold_spec(s) == Err::<u8, HoldError>(e),
        },
{
    if s.emergency {
        return Err(HoldError::Emergency);
    }
    if !s.fresh {
        return Err(HoldError::NoAnswer);
    }
    if !s.report {
        return Err(HoldError::NoReport);
    }
    if !s.hold_supported {
        return Err(HoldError::Unsupported);
    }
    match s.z_slot {
        None => Err(HoldError::NoZ),
        Some(slot) => {
            let mask: u8 = 1u8 << slot;
            if s.stale_slots & mask != 0 {
                return Err(HoldError::NoFeedback);
            }
            let mut line = String::from_str("HOLD ");
            push_dec(&mut line, mask as u64);
            Ok(line)
        },
    }
}

/// Whether a failed configuration leaves the held axes held (and only
/// reports the error) instead of faulting: some axis is held.
pub fn keep_hold_on_config_failure(held_slots: Option<u8>) -> (b: bool)
    ensures
        b == (held_slots matches Some(h) && h != 0),
{
    match held_slots {
        Some(h) => h != 0,
        None => false,
    }
}

/// A stop that cuts sends STOP to cctl first, whatever the state.
pub proof fn lemma_cut_sends_stop_first(s: HaltState)
    ensures
        halt_actions(s, true).len() > 0,
        halt_actions(s, true)[0] == HaltAction::Cut,
        halt_cut(s, true),
{
}

/// Without a current report the worker never only holds: it cuts every output.
pub proof fn lemma_stale_report_cuts(s: HaltState, cut: bool)
    requires
        !s.fresh,
    ensures
        halt_actions(s, cut)[0] == HaltAction::Cut,
        !halt_actions(s, cut).contains(HaltAction::Hold),
{
    let a = halt_actions(s, cut);
    assert(a[0] == HaltAction::Cut);
    assert forall|i: int| 0 <= i < a.len() implies a[i] != HaltAction::Hold by {
    }
}

/// A stop or a fault while waiting for the start leaves the preparation in
/// recovery, so that the start needs a new check.
pub proof fn lemma_waiting_recovers(phase: PreparationPhase)
    requires
        phase == PreparationPhase::Waiting,
    ensures
        halt_phase(phase) == PreparationPhase::Recovery,
        fault_phase_spec(phase) == PreparationPhase::Recovery,
{
}

} // verus!
