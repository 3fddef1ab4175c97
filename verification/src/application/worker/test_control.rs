//! The decisions of an individual output test while it runs: which replies
//! report a refused or released output, when a held output stops, when a
//! silent board is a fault, and when the boards are polled. Times are
//! milliseconds; the worker sends and stops.
use vstd::prelude::*;
use crate::application::sts::{frame, frame_spec};
use crate::diagnostics::individual::{Kind, Target, target_board};

verus! {

/// A momentary output stops unless renewed within this time (ms).
pub const RENEW_MS: u64 = 150;

/// A board behind cctl that has not answered within this time (ms) is lost.
pub const PEER_MS: u64 = 2000;

/// The boards are polled at most this often (ms).
pub const POLL_MS: u64 = 500;

/// Replies within this time (ms) of the start may still show the output off.
pub const SETTLE_MS: u64 = 500;

/// The board of a state reply, by its CAN ID.
pub open spec fn reply_board(id: u16) -> Seq<char> {
    if id == 769 {
        "pwm"@
    } else if id == 785 {
        "dc"@
    } else {
        "sts"@
    }
}

/// The state reply in a received line: the first of svmd (769), DCMD (785) and
/// the serial servo board (801) whose version-1 frame the line carries.
pub open spec fn state_reply_spec(line: Seq<char>) -> Option<(u16, Seq<u8>)> {
    match frame_spec(line, 769) {
        Some(d) => Some((769u16, d)),
        None => match frame_spec(line, 785) {
            Some(d) => Some((785u16, d)),
            None => match frame_spec(line, 801) {
                Some(d) => Some((801u16, d)),
                None => None,
            },
        },
    }
}

/// The state reply of a test board in a received line, with its CAN ID.
pub fn state_reply(line: &str) -> (r: Option<(u16, [u8; 8])>)
    ensures
        match (r, state_reply_spec(line@)) {
            (Some((id, a)), Some((sid, d))) => id == sid && a@ == d,
            (None, None) => true,
            _ => false,
        },
{
    if let Some(d) = frame(line, 769) {
        return Some((769, d));
    }
    if let Some(d) = frame(line, 785) {
        return Some((785, d));
    }
    if let Some(d) = frame(line, 801) {
        return Some((801, d));
    }
    None
}

/// Whether a state reply shows the target's output off: the PWM channel's bit
/// clear in the enable mask, DCMD not in mode 1 and enabled, the serial servo
/// board not enabled.
pub open spec fn disabled_spec(target: Target, d: Seq<u8>) -> bool {
    match target {
        Target::Pwm(channel) => d[4] & (1u8 << channel) == 0,
        Target::Dc => d[2] != 1 || d[3] != 1,
        Target::Sts(_) => d[2] != 1,
        Target::Cctl(_) => false,
    }
}

/// Whether a state reply shows the target's output off.
pub fn output_disabled(target: Target, d: &[u8; 8]) -> (b: bool)
    requires
        target matches Target::Pwm(c) ==> c < 8,
    ensures
        b == disabled_spec(target, d@),
{
    match target {
        Target::Pwm(channel) => d[4] & (1u8 << channel) == 0,
        Target::Dc => d[2] != 1 || d[3] != 1,
        Target::Sts(_) => d[2] != 1,
        Target::Cctl(_) => false,
    }
}

/// Whether a state reply from `id` ends a running test with a fault: it comes
/// from the tested board and reports a refusal, or, once the start has
/// settled, shows the output off.
pub open spec fn reply_faults_spec(
    active: bool,
    selected: Option<Target>,
    started: Option<u64>,
    now: u64,
    id: u16,
    d: Seq<u8>,
) -> bool {
    &&& active
    &&& selected matches Some(t)
    &&& target_board(t) == reply_board(id)
    &&& (d[1] != 0 || ((started matches Some(s) && now > s + SETTLE_MS) && disabled_spec(t, d)))
}

/// Whether a state reply ends a running test with a fault.
pub fn reply_faults(
    active: bool,
    selected: Option<Target>,
    started: Option<u64>,
    now: u64,
    id: u16,
    d: &[u8; 8],
) -> (b: bool)
    requires
        id == 769 || id == 785 || id == 801,
        selected matches Some(Target::Pwm(c)) ==> c < 8,
    ensures
        b == reply_faults_spec(active, selected, started, now, id, d@),
{
    if !active {
        return false;
    }
    let t = match selected {
        Some(t) => t,
        None => {
            return false;
        },
    };
    let same = match t {
        Target::Pwm(_) => id == 769,
        Target::Dc => id == 785,
        Target::Sts(_) => id == 801,
        Target::Cctl(_) => false,
    };
    proof {
        reveal_strlit("pwm");
        reveal_strlit("dc");
        reveal_strlit("sts");
        reveal_strlit("cctl");
        assert("pwm"@[0] != "dc"@[0]);
        assert("pwm"@[0] != "sts"@[0]);
        assert("dc"@[0] != "sts"@[0]);
        assert("cctl"@.len() != "pwm"@.len());
        assert("cctl"@.len() != "dc"@.len());
        assert("cctl"@.len() != "sts"@.len());
    }
    if !same {
        return false;
    }
    let settled = match started {
        Some(s) => now > s && now - s > SETTLE_MS,
        None => false,
    };
    d[1] != 0 || (settled && output_disabled(t, d))
}

/// What a running test does at a tick.
#[derive(Clone, Copy, Debug, PartialEq, Eq, Structural)]
pub enum TestTick {
    /// No test output is on.
    Idle,
    /// A momentary output was not renewed in time: stop it.
    Stop,
    /// The tested board behind cctl went silent: a fault.
    Fault,
    /// Keep the output alive with the target's heartbeat line.
    Heartbeat,
}

/// Why a tick cannot go on.
#[derive(Clone, Copy, Debug, PartialEq, Eq, Structural)]
pub enum TestTickError {
    /// A test output is on without a target.
    NoTarget,
}

/// The tick of a running test at `now`: a momentary output not renewed within
/// `RENEW_MS` stops; a board behind cctl not heard from within `PEER_MS` is a
/// fault; otherwise the output is kept alive.
pub open spec fn test_tick_spec(
    active: bool,
    selected: Option<(Target, Kind)>,
    renewed: Option<u64>,
    peer_seen: Option<u64>,
    now: u64,
) -> Result<TestTick, TestTickError> {
    if !active {
        Ok(TestTick::Idle)
    } else {
        match selected {
            None => Err(TestTickError::NoTarget),
            Some((target, kind)) => if kind != Kind::Position && (match renewed {
                None => true,
                Some(r) => now > r + RENEW_MS,
            }) {
                Ok(TestTick::Stop)
            } else if !(target is Cctl) && !(match peer_seen {
                Some(seen) => now < seen + PEER_MS,
                None => false,
            }) {
                Ok(TestTick::Fault)
            } else {
                Ok(TestTick::Heartbeat)
            },
        }
    }
}

/// The tick of a running test at `now`; `peer_seen` is when the tested
/// board last answered.
pub fn test_tick(
    active: bool,
    selected: Option<(Target, Kind)>,
    renewed: Option<u64>,
    peer_seen: Option<u64>,
    now: u64,
) -> (r: Result<TestTick, TestTickError>)
    ensures
        r == test_tick_spec(active, selected, renewed, peer_seen, now),
{
    if !active {
        return Ok(TestTick::Idle);
    }
    let (target, kind) = match selected {
        Some(s) => s,
        None => {
            return Err(TestTickError::NoTarget);
        },
    };
    let expired = match renewed {
        None => true,
        Some(r) => now > r && now - r > RENEW_MS,
    };
    if kind.momentary() && expired {
        return Ok(TestTick::Stop);
    }
    let heard = match peer_seen {
        Some(seen) => now < seen || now - seen < PEER_MS,
        None => false,
    };
    if !matches!(target, Target::Cctl(_)) && !heard {
        return Ok(TestTick::Fault);
    }
    Ok(TestTick::Heartbeat)
}

/// Whether the boards are polled at `now`: while the machine's report is
/// recent, at most every `POLL_MS`.
pub open spec fn poll_due_spec(fresh: bool, last_poll: Option<u64>, now: u64) -> bool {
    fresh && match last_poll {
        None => true,
        Some(p) => now > p + POLL_MS,
    }
}

/// Whether the boards are polled at `now`.
pub fn poll_due(fresh: bool, last_poll: Option<u64>, now: u64) -> (b: bool)
    ensures
        b == poll_due_spec(fresh, last_poll, now),
{
    fresh && match last_poll {
        None => true,
        Some(p) => now > p && now - p > POLL_MS,
    }
}

/// A held test output never outlives its renewal: at a tick more than
/// `RENEW_MS` after the last renewal, a velocity or duty test stops.
pub proof fn lemma_momentary_output_stops(target: Target, kind: Kind, renewed: u64, peer_seen: Option<u64>, now: u64)
    requires
        kind != Kind::Position,
        now > renewed + RENEW_MS,
    ensures
        test_tick_spec(true, Some((target, kind)), Some(renewed), peer_seen, now)
            == Ok::<TestTick, TestTickError>(TestTick::Stop),
{
}

} // verus!
