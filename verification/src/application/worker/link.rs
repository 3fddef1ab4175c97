//! The worker's periodic watch over the machine link: a link that stopped
//! answering is dropped, the first answer of the expected board sets the
//! machine safe, a RUN that the board did not confirm within 500 ms is a
//! fault, and a link that answers again after a failure is recovered.
use vstd::prelude::*;
use crate::application::app_state::PreparationPhase;
use crate::application::worker::DriveState;

verus! {

/// How long (ms) a RUN may wait for the board to confirm it.
pub const RUN_CONFIRM_MS: u64 = 500;

/// What the watch reads and changes.
#[derive(Clone, Copy, Debug, PartialEq, Eq, Structural)]
pub struct LinkState {
    /// The board has answered since the link was opened.
    pub receiving: bool,
    /// The board's last report is recent.
    pub fresh: bool,
    /// A communication failure is on record.
    pub failed: bool,
    /// The board told what it is.
    pub device: bool,
    /// It is the board with the expected motor layout.
    pub expected_layout: bool,
    /// The machine was set safe after first contact.
    pub setup: bool,
    pub drive: DriveState,
    pub preparation: PreparationPhase,
}

/// What the watch did, in order.
#[derive(Clone, Copy, Debug, PartialEq, Eq, Structural)]
pub enum LinkAction {
    /// The board stopped answering: everything stops and what was learnt
    /// from it is forgotten.
    CommunicationFailed,
    /// First contact with the expected board: driving cleared, SAFE and the
    /// peripherals' stop sent.
    SetUp,
    /// RUN was not confirmed in time: a fault.
    RunUnconfirmed,
    /// The board answers again after a failure; outputs stay stopped.
    Recovered,
}

/// The phase after `stop`: waiting to start becomes recovery.
pub open spec fn after_stop(p: PreparationPhase) -> PreparationPhase {
    if p == PreparationPhase::Waiting {
        PreparationPhase::Recovery
    } else {
        p
    }
}

/// The phase after a fault: anything but setting becomes recovery.
pub open spec fn after_fault(p: PreparationPhase) -> PreparationPhase {
    if p == PreparationPhase::Setting {
        p
    } else {
        PreparationPhase::Recovery
    }
}

/// One watch at `now` (ms), its checks in order, each on the state the
/// earlier ones left.
pub open spec fn watch_spec(s: LinkState, now: u64) -> (LinkState, Seq<LinkAction>) {
    let (s1, a1) = if !s.fresh && s.receiving {
        (
            LinkState {
                receiving: false,
                failed: true,
                device: false,
                setup: false,
                drive: DriveState::Stopped,
                preparation: after_stop(s.preparation),
                ..s
            },
            seq![LinkAction::CommunicationFailed],
        )
    } else {
        (s, seq![])
    };
    let (s2, a2) = if s1.fresh && s1.device && s1.expected_layout && !s1.setup {
        (LinkState { setup: true, drive: DriveState::Stopped, ..s1 }, a1.push(LinkAction::SetUp))
    } else {
        (s1, a1)
    };
    let (s3, a3) = match s2.drive {
        DriveState::AwaitingRun(sent) => if now - sent > RUN_CONFIRM_MS {
            (
                LinkState {
                    drive: DriveState::Stopped,
                    preparation: after_fault(s2.preparation),
                    ..s2
                },
                a2.push(LinkAction::RunUnconfirmed),
            )
        } else {
            (s2, a2)
        },
        _ => (s2, a2),
    };
    if s3.failed && s3.fresh && s3.device {
        (LinkState { failed: false, ..s3 }, a3.push(LinkAction::Recovered))
    } else {
        (s3, a3)
    }
}

/// One watch of the link at `now` (ms).
pub fn watch(s: &mut LinkState, now: u64) -> (actions: Vec<LinkAction>)
    ensures
        (*final(s), actions@) == watch_spec(*old(s), now),
{
    let mut actions: Vec<LinkAction> = Vec::new();
    if !s.fresh && s.receiving {
        s.receiving = false;
        s.failed = true;
        s.device = false;
        s.setup = false;
        s.drive = DriveState::Stopped;
        if s.preparation == PreparationPhase::Waiting {
            s.preparation = PreparationPhase::Recovery;
        }
        actions.push(LinkAction::CommunicationFailed);
    }
    if s.fresh && s.device && s.expected_layout && !s.setup {
        s.setup = true;
        s.drive = DriveState::Stopped;
        actions.push(LinkAction::SetUp);
    }
    if let DriveState::AwaitingRun(sent) = s.drive {
        if now >= sent && now - sent > RUN_CONFIRM_MS {
            s.drive = DriveState::Stopped;
            if s.preparation != PreparationPhase::Setting {
                s.preparation = PreparationPhase::Recovery;
            }
            actions.push(LinkAction::RunUnconfirmed);
        }
    }
    if s.failed && s.fresh && s.device {
        s.failed = false;
        actions.push(LinkAction::Recovered);
    }
    actions
}

} // verus!
