//! The management of STS serial servos through the serial servo board: the
//! queue of extended CAN operations, each confirmed before the next, the
//! requests that fill it, the replies that confirm it and the periodic step
//! that sends it. Times are milliseconds; the worker sends the lines and stops
//! the machine when asked.
use vstd::prelude::*;
use vstd::string::*;
use crate::application::sts::{
    Operation, Step, Target, TargetError, decode_signed, decode_signed_spec, frame, frame_spec, line,
    line_spec, signed, signed_spec, validate_targets, validate_targets_spec,
};
use crate::text::{dec, hex2, push_dec, push_hex2, views};
use crate::application::sts::target_error_message;

verus! {

/// One extended operation: its 8-byte frame, the value its reply must carry,
/// and how long (ms) to wait after it is confirmed.
#[derive(Clone, Copy, Debug)]
pub struct Command {
    pub packet: [u8; 8],
    pub expected: Option<u16>,
    pub wait_ms: u32,
}

/// A command as a value of the specification.
pub struct CommandView {
    pub packet: Seq<u8>,
    pub expected: Option<u16>,
    pub wait_ms: u32,
}

impl View for Command {
    type V = CommandView;

    open spec fn view(&self) -> CommandView {
        CommandView { packet: self.packet@, expected: self.expected, wait_ms: self.wait_ms }
    }
}

pub open spec fn command_views(s: Seq<Command>) -> Seq<CommandView> {
    s.map_values(|c: Command| c@)
}

/// What the servo management holds.
pub struct ControlView {
    /// The worker keeps the serial servo board in view.
    pub interested: bool,
    /// Servo outputs are on.
    pub active: bool,
    /// The board confirmed the start of a motion.
    pub armed: bool,
    pub queue: Seq<CommandView>,
    /// The operation sent and not yet confirmed, with when it was sent.
    pub pending: Option<(CommandView, u64)>,
    pub wait_until: Option<u64>,
    /// While a wheel (velocity) motion runs: its last renewal.
    pub lease: Option<u64>,
    pub sequence: bool,
    pub monitor: Seq<u8>,
    pub monitor_index: usize,
    pub last_poll: Option<u64>,
    /// The measurement bytes gathered so far, and which of the four parts came.
    pub bytes: Seq<u8>,
    pub parts: u8,
    pub tag: u8,
    pub epoch: Option<u64>,
}

/// The servo management.
pub struct Control {
    interested: bool,
    active: bool,
    armed: bool,
    queue: Vec<Command>,
    pending: Option<(Command, u64)>,
    wait_until: Option<u64>,
    lease: Option<u64>,
    sequence: bool,
    monitor: Vec<u8>,
    monitor_index: usize,
    last_poll: Option<u64>,
    bytes: [u8; 15],
    parts: u8,
    tag: u8,
    epoch: Option<u64>,
}

pub open spec fn pending_view(p: Option<(Command, u64)>) -> Option<(CommandView, u64)> {
    match p {
        Some((c, t)) => Some((c@, t)),
        None => None,
    }
}

impl View for Control {
    type V = ControlView;

    closed spec fn view(&self) -> ControlView {
        ControlView {
            interested: self.interested,
            active: self.active,
            armed: self.armed,
            queue: command_views(self.queue@),
            pending: pending_view(self.pending),
            wait_until: self.wait_until,
            lease: self.lease,
            sequence: self.sequence,
            monitor: self.monitor@,
            monitor_index: self.monitor_index,
            last_poll: self.last_poll,
            bytes: self.bytes@,
            parts: self.parts,
            tag: self.tag,
            epoch: self.epoch,
        }
    }
}

/// The management before any request.
pub open spec fn initial() -> ControlView {
    ControlView {
        interested: false,
        active: false,
        armed: false,
        queue: seq![],
        pending: None,
        wait_until: None,
        lease: None,
        sequence: false,
        monitor: seq![],
        monitor_index: 0,
        last_poll: None,
        bytes: Seq::new(15, |i: int| 0u8),
        parts: 0,
        tag: 0,
        epoch: None,
    }
}

/// The tag `k` steps after `t`, wrapping.
pub open spec fn tag_after(t: u8, k: nat) -> u8 {
    ((t + k) % 256) as u8
}

/// An operation `op` on servo `id` with its tag and four argument bytes.
pub open spec fn op_command(op: u8, id: u8, tag: u8, args: Seq<u8>, expected: Option<u16>) -> CommandView {
    CommandView { packet: seq![1u8, op, id, tag, args[0], args[1], args[2], args[3]], expected, wait_ms: 0 }
}

/// After the management stops: nothing on, nothing queued, pending or awaited.
pub open spec fn cancelled(c: ControlView) -> ControlView {
    ControlView {
        active: false,
        armed: false,
        queue: seq![],
        pending: None,
        wait_until: None,
        lease: None,
        sequence: false,
        ..c
    }
}

/// Tags advance one at a time, wrapping.
pub proof fn lemma_tag_after(t: u8, a: nat, b: nat)
    ensures
        tag_after(tag_after(t, a), b) == tag_after(t, a + b),
{
    let x = (t + a) % 256;
    assert(tag_after(t, a) == x);
    assert((x + b) % 256 == (t + a + b) % 256) by (nonlinear_arith)
        requires
            x == (t + a) % 256,
    ;
}

/// The mode reads that precede a motion, each with its own tag after `t0`
/// (the first tag after `t0` goes to the synchronisation start).
pub open spec fn mode_reads(ts: Seq<Target>, t0: u8) -> Seq<CommandView> {
    Seq::new(
        ts.len(),
        |k: int|
            op_command(
                20,
                ts[k].id,
                tag_after(t0, (k + 2) as nat),
                seq![33u8, 1, 0, 0],
                Some(ts[k].mode as u16),
            ),
    )
}

/// The position of a goal: none for a wheel (mode 1), else the sign-magnitude value.
pub open spec fn goal_position(t: Target) -> u16 {
    if t.mode == 1 {
        0
    } else {
        signed_spec(t.value)
    }
}

/// The speed of a goal: the sign-magnitude value for a wheel, else the speed.
pub open spec fn goal_speed(t: Target) -> u16 {
    if t.mode == 1 {
        signed_spec(t.value)
    } else {
        t.speed
    }
}

/// The goal frame of one servo: acceleration in the tag's place, then the
/// big-endian position and speed.
pub open spec fn goal(t: Target) -> CommandView {
    CommandView {
        packet: seq![
            1u8,
            22,
            t.id,
            t.acceleration,
            (goal_position(t) / 256) as u8,
            (goal_position(t) % 256) as u8,
            (goal_speed(t) / 256) as u8,
            (goal_speed(t) % 256) as u8,
        ],
        expected: None,
        wait_ms: 0,
    }
}

pub open spec fn goals(ts: Seq<Target>) -> Seq<CommandView> {
    Seq::new(ts.len(), |k: int| goal(ts[k]))
}

/// The frame that starts the motors.
pub open spec fn run_frame() -> CommandView {
    CommandView { packet: seq![1u8, 2, 0, 0, 0, 0, 0, 0], expected: None, wait_ms: 0 }
}

/// A synchronised motion of `ts`: start the synchronisation, check each
/// servo's mode, send every goal, run, and commit the `n` goals, then wait.
pub open spec fn motion_spec(t0: u8, ts: Seq<Target>, wait_ms: u32) -> Seq<CommandView> {
    seq![op_command(27, 0, tag_after(t0, 1), seq![0u8, 0, 0, 0], None)] + mode_reads(ts, t0) + goals(
        ts,
    ) + seq![run_frame()] + seq![
        CommandView {
            wait_ms,
            ..op_command(23, ts.len() as u8, tag_after(t0, ts.len() + 2), seq![0u8, 0, 0, 0], None)
        },
    ]
}

impl Default for Control {
    fn default() -> (c: Control)
        ensures
            c@ == initial(),
    {
        let c = Control {
            interested: false,
            active: false,
            armed: false,
            queue: Vec::new(),
            pending: None,
            wait_until: None,
            lease: None,
            sequence: false,
            monitor: Vec::new(),
            monitor_index: 0,
            last_poll: None,
            bytes: [0u8; 15],
            parts: 0,
            tag: 0,
            epoch: None,
        };
        assert(c@.queue =~= Seq::<CommandView>::empty());
        assert(c@.bytes =~= Seq::new(15, |i: int| 0u8));
        c
    }
}

impl Control {
    /// The worker keeps the serial servo board in view.
    pub fn interested(&self) -> (b: bool)
        ensures
            b == self@.interested,
    {
        self.interested
    }

    /// Servo outputs are on.
    pub fn active(&self) -> (b: bool)
        ensures
            b == self@.active,
    {
        self.active
    }

    /// Stops reading the monitored servos.
    pub fn stop_monitoring(&mut self)
        ensures
            final(self)@ == (ControlView { monitor: seq![], ..old(self)@ }),
    {
        self.monitor = Vec::new();
        assert(self@.monitor =~= Seq::<u8>::empty());
    }

    /// The next tag, wrapping.
    fn next_tag(&mut self) -> (t: u8)
        ensures
            t == tag_after(old(self)@.tag, 1),
            final(self)@ == (ControlView { tag: t, ..old(self)@ }),
    {
        self.tag = if self.tag == 255 {
            0
        } else {
            self.tag + 1
        };
        self.tag
    }

    /// Stops everything in progress.
    pub fn cancel(&mut self)
        ensures
            final(self)@ == cancelled(old(self)@),
    {
        self.active = false;
        self.armed = false;
        self.queue = Vec::new();
        self.pending = None;
        self.wait_until = None;
        self.lease = None;
        self.sequence = false;
        assert(self@.queue =~= Seq::<CommandView>::empty());
    }

    /// Queues operation `op` on servo `id`.
    fn command(&mut self, op: u8, id: u8, args: [u8; 4], expected: Option<u16>)
        ensures
            final(self)@ == (ControlView {
                queue: old(self)@.queue.push(
                    op_command(op, id, tag_after(old(self)@.tag, 1), args@, expected),
                ),
                tag: tag_after(old(self)@.tag, 1),
                ..old(self)@
            }),
    {
        let tag = self.next_tag();
        let packet: [u8; 8] = [1, op, id, tag, args[0], args[1], args[2], args[3]];
        let ghost before = self.queue@;
        self.queue.push(Command { packet, expected, wait_ms: 0 });
        assert(packet@ =~= seq![1u8, op, id, tag, args@[0], args@[1], args@[2], args@[3]]);
        assert(command_views(self.queue@) =~= command_views(before).push(
            op_command(op, id, tag, args@, expected),
        ));
    }

    /// Queues a synchronised motion of `targets`, waiting `wait_ms` after it.
    fn motion(&mut self, targets: &[Target], wait_ms: u32)
        requires
            targets@.len() <= 16,
        ensures
            final(self)@ == (ControlView {
                queue: old(self)@.queue + motion_spec(old(self)@.tag, targets@, wait_ms),
                tag: tag_after(old(self)@.tag, targets@.len() + 2),
                ..old(self)@
            }),
    {
        let ghost t0 = self@.tag;
        let ghost q0 = self@.queue;
        let ghost ts = targets@;
        self.command(27, 0, [0u8, 0, 0, 0], None);
        let ghost first = op_command(27, 0, tag_after(t0, 1), seq![0u8, 0, 0, 0], None);
        assert([0u8, 0, 0, 0]@ =~= seq![0u8, 0, 0, 0]);
        let n = targets.len();
        let mut k: usize = 0;
        while k < n
            invariant
                n == ts.len(),
                ts == targets@,
                n <= 16,
                k <= n,
                self@.queue == q0 + seq![first] + mode_reads(ts.take(k as int), t0),
                self@.tag == tag_after(t0, (k + 1) as nat),
                self@ == (ControlView { queue: self@.queue, tag: self@.tag, ..old(self)@ }),
            decreases n - k,
        {
            let t = targets[k];
            let ghost before = self@.queue;
            self.command(20, t.id, [33, 1, 0, 0], Some(t.mode as u16));
            proof {
                lemma_tag_after(t0, (k + 1) as nat, 1);
                assert([33u8, 1, 0, 0]@ =~= seq![33u8, 1, 0, 0]);
                assert(mode_reads(ts.take(k + 1), t0) =~= mode_reads(ts.take(k as int), t0).push(
                    op_command(20, t.id, tag_after(t0, (k + 2) as nat), seq![33u8, 1, 0, 0], Some(t.mode as u16)),
                ));
            }
            k = k + 1;
        }
        assert(ts.take(n as int) == ts);
        let ghost after_reads = self@.queue;
        let mut j: usize = 0;
        while j < n
            invariant
                n == ts.len(),
                ts == targets@,
                n <= 16,
                j <= n,
                self@.queue == after_reads + goals(ts.take(j as int)),
                self@.tag == tag_after(t0, (n + 1) as nat),
                self@ == (ControlView { queue: self@.queue, tag: self@.tag, ..old(self)@ }),
            decreases n - j,
        {
            let t = targets[j];
            let position: u16 = if t.mode == 1 {
                0
            } else {
                signed(t.value)
            };
            let speed: u16 = if t.mode == 1 {
                signed(t.value)
            } else {
                t.speed
            };
            let packet: [u8; 8] = [
                1,
                22,
                t.id,
                t.acceleration,
                (position / 256) as u8,
                (position % 256) as u8,
                (speed / 256) as u8,
                (speed % 256) as u8,
            ];
            let ghost before = self.queue@;
            self.queue.push(Command { packet, expected: None, wait_ms: 0 });
            proof {
                assert(packet@ =~= goal(t).packet);
                assert(command_views(self.queue@) =~= command_views(before).push(goal(t)));
                assert(goals(ts.take(j + 1)) =~= goals(ts.take(j as int)).push(goal(t)));
            }
            j = j + 1;
        }
        assert(ts.take(n as int) == ts);
        let ghost after_goals = self@.queue;
        assert(after_goals == q0 + seq![first] + mode_reads(ts, t0) + goals(ts));
        let ghost before_run = self.queue@;
        self.queue.push(Command { packet: [1, 2, 0, 0, 0, 0, 0, 0], expected: None, wait_ms: 0 });
        proof {
            assert([1u8, 2, 0, 0, 0, 0, 0, 0]@ =~= run_frame().packet);
            assert(command_views(self.queue@) =~= command_views(before_run).push(run_frame()));
        }
        let ghost after_run = self@.queue;
        self.command(23, n as u8, [0u8, 0, 0, 0], None);
        assert([0u8, 0, 0, 0]@ =~= seq![0u8, 0, 0, 0]);
        proof {
            lemma_tag_after(t0, (n + 1) as nat, 1);
        }
        let ghost commit = op_command(23, n as u8, tag_after(t0, (n + 2) as nat), seq![0u8, 0, 0, 0], None);
        assert(self@.queue == after_run.push(commit));
        assert(self.queue@.len() == self@.queue.len());
        let last = self.queue.len() - 1;
        let mut c = self.queue[last];
        assert(self@.queue[last as int] == commit);
        assert(command_views(self.queue@)[last as int] == self.queue@[last as int]@);
        assert(c@ == commit);
        c.wait_ms = wait_ms;
        let ghost before_set = self.queue@;
        self.queue.set(last, c);
        proof {
            assert(command_views(self.queue@) =~= command_views(before_set).update(last as int, c@));
            assert(self@.queue =~= after_run.push(CommandView { wait_ms, ..commit }));
            assert(self@.queue =~= q0 + motion_spec(t0, ts, wait_ms));
        }
    }

    /// Whether an operation is queued, unconfirmed or awaited.
    pub fn busy(&self) -> (b: bool)
        ensures
            b == (self@.pending is Some || self@.queue.len() > 0 || self@.wait_until is Some),
    {
        self.pending.is_some() || self.queue.len() > 0 || self.wait_until.is_some()
    }

    /// Milliseconds since the first measurement, or 0 before it.
    pub fn elapsed_ms(&self, now: u64) -> (ms: u64)
        ensures
            ms == match self@.epoch {
                Some(e) => if now >= e {
                    (now - e) as u64
                } else {
                    0
                },
                None => 0,
            },
    {
        match self.epoch {
            Some(e) => if now >= e {
                now - e
            } else {
                0
            },
            None => 0,
        }
    }
}


/// Why a servo operation is refused or failed.
#[derive(Clone, Copy, Debug, PartialEq, Eq, Structural)]
pub enum StsError {
    WaitForConnection,
    EndDriving,
    Busy,
    MonitorRange,
    ReadRange,
    SingleServo,
    IdWidth,
    ScanRange,
    Targets(TargetError),
    SequenceSteps,
    WaitRange,
    TooManyServos,
    /// The board stopped or refused while a motion was armed.
    Refused,
    /// An operation failed on the servo: its ID, operation, result and flags.
    Failed(u8, u8, u8, u8),
    /// A servo's mode is not the one requested: ID, mode set, mode requested.
    ModeMismatch(u8, u16, u16),
    BaudCode,
    MissingParts,
    NoAck,
}

/// A servo ID that the bus accepts.
pub open spec fn in_id_range(id: u8) -> bool {
    1 <= id <= 253
}

/// Insert `x` into a strictly increasing list of IDs, keeping it so.
pub open spec fn sorted_insert(s: Seq<u8>, x: u8) -> Seq<u8>
    decreases s.len(),
{
    if s.len() == 0 {
        seq![x]
    } else if x < s[0] {
        seq![x] + s
    } else if x == s[0] {
        s
    } else {
        seq![s[0]] + sorted_insert(s.drop_first(), x)
    }
}

/// Every ID of `xs` inserted into `s`, in order.
pub open spec fn insert_all(s: Seq<u8>, xs: Seq<u8>) -> Seq<u8>
    decreases xs.len(),
{
    if xs.len() == 0 {
        s
    } else {
        sorted_insert(insert_all(s, xs.drop_last()), xs.last())
    }
}

/// The IDs of a set of targets, in order.
pub open spec fn target_ids(ts: Seq<Target>) -> Seq<u8> {
    ts.map_values(|t: Target| t.id)
}

/// The IDs of all targets of all steps, in order.
pub open spec fn step_ids(steps: Seq<Step>) -> Seq<u8>
    decreases steps.len(),
{
    if steps.len() == 0 {
        seq![]
    } else {
        step_ids(steps.drop_last()) + target_ids(steps.last().targets@)
    }
}

/// The first fault of a sequence's steps: a refused set of targets, or a wait
/// outside 100..=60000 ms.
pub open spec fn steps_fault(steps: Seq<Step>) -> Option<StsError>
    decreases steps.len(),
{
    if steps.len() == 0 {
        None
    } else {
        match steps_fault(steps.drop_last()) {
            Some(e) => Some(e),
            None => match validate_targets_spec(steps.last().targets@) {
                Err(e) => Some(StsError::Targets(e)),
                Ok(()) => if 100 <= steps.last().wait_ms <= 60000 {
                    None
                } else {
                    Some(StsError::WaitRange)
                },
            },
        }
    }
}

/// The motions of a sequence, one after another, and the tag after them.
pub open spec fn sequence_commands(t0: u8, steps: Seq<Step>) -> (Seq<CommandView>, u8)
    decreases steps.len(),
{
    if steps.len() == 0 {
        (seq![], t0)
    } else {
        let r = sequence_commands(t0, steps.drop_last());
        let last = steps.last();
        (
            r.0 + motion_spec(r.1, last.targets@, last.wait_ms),
            tag_after(r.1, last.targets@.len() + 2),
        )
    }
}

/// The ID scan of `first..=last`, one probe per ID.
pub open spec fn scan_commands(t0: u8, first: u8, last: u8) -> Seq<CommandView> {
    Seq::new(
        (last - first + 1) as nat,
        |k: int| op_command(25, (first + k) as u8, tag_after(t0, (k + 1) as nat), seq![0u8, 0, 0, 0], None),
    )
}

pub open spec fn busy_spec(c: ControlView) -> bool {
    c.pending is Some || c.queue.len() > 0 || c.wait_until is Some
}

/// Wake the board for management.
pub open spec fn wake_line() -> Seq<char> {
    "CAN 2 800 0100000000000000"@
}

/// Release the servos before changing their settings.
pub open spec fn release_line() -> Seq<char> {
    "CAN 2 800 0103000000000000"@
}

/// The management after a request, the lines sent (even for a refused
/// request, once it has passed the first checks), whether the list of
/// discovered servos is cleared, and the decision. `connected`: the link is
/// fresh, the board reported and its settings are confirmed; `idle`: neither
/// driving nor an individual test is on.
pub open spec fn request_spec(c: ControlView, op: Operation, connected: bool, idle: bool, now: u64) -> (
    ControlView,
    Seq<Seq<char>>,
    bool,
    Result<(), StsError>,
) {
    if op is Renew {
        (
            if c.lease is Some {
                ControlView { lease: Some(now), ..c }
            } else {
                c
            },
            seq![],
            false,
            Ok(()),
        )
    } else if !connected {
        (c, seq![], false, Err(StsError::WaitForConnection))
    } else if !idle {
        (c, seq![], false, Err(StsError::EndDriving))
    } else if busy_spec(c) {
        (c, seq![], false, Err(StsError::Busy))
    } else {
        let c1 = ControlView { interested: true, ..c };
        let woken = seq![wake_line()];
        match op {
            Operation::Monitor { ids } => if ids@.len() <= 16 && forall|k: int|
                0 <= k < ids@.len() ==> in_id_range(#[trigger] ids@[k]) {
                (ControlView { monitor: ids@, ..c1 }, woken, false, Ok(()))
            } else {
                (c1, woken, false, Err(StsError::MonitorRange))
            },
            Operation::Read { id, address, width } => if in_id_range(id) && (width == 1 || width
                == 2) && address + width <= 71 {
                (
                    ControlView {
                        queue: c1.queue.push(
                            op_command(20, id, tag_after(c1.tag, 1), seq![address, width, 0u8, 0u8], None),
                        ),
                        tag: tag_after(c1.tag, 1),
                        ..c1
                    },
                    woken,
                    false,
                    Ok(()),
                )
            } else {
                (c1, woken, false, Err(StsError::ReadRange))
            },
            Operation::Configure { id, address, width, value, single_servo } => if !(!c1.active
                && single_servo) {
                (c1, woken, false, Err(StsError::SingleServo))
            } else if !(in_id_range(id) && (width == 1 || width == 2)) {
                (c1, woken, false, Err(StsError::IdWidth))
            } else {
                (
                    ControlView {
                        queue: c1.queue.push(
                            op_command(
                                21,
                                id,
                                tag_after(c1.tag, 1),
                                seq![address, width, (value / 256) as u8, (value % 256) as u8],
                                None,
                            ),
                        ),
                        tag: tag_after(c1.tag, 1),
                        ..c1
                    },
                    woken.push(release_line()),
                    false,
                    Ok(()),
                )
            },
            Operation::Scan { first, last } => if !(!c1.active && first >= 1 && last <= 253 && first
                <= last) {
                (c1, woken, false, Err(StsError::ScanRange))
            } else {
                (
                    ControlView {
                        queue: c1.queue + scan_commands(c1.tag, first, last),
                        tag: tag_after(c1.tag, (last - first + 1) as nat),
                        ..c1
                    },
                    woken.push(release_line()),
                    true,
                    Ok(()),
                )
            },
            Operation::Move { targets } => match validate_targets_spec(targets@) {
                Err(e) => (c1, woken, false, Err(StsError::Targets(e))),
                Ok(()) => (
                    ControlView {
                        active: true,
                        lease: if exists|k: int| 0 <= k < targets@.len() && #[trigger] targets@[k].mode
                            == 1 {
                            Some(now)
                        } else {
                            None
                        },
                        queue: c1.queue + motion_spec(c1.tag, targets@, 0),
                        tag: tag_after(c1.tag, targets@.len() + 2),
                        monitor: target_ids(targets@),
                        ..c1
                    },
                    woken,
                    false,
                    Ok(()),
                ),
            },
            Operation::Sequence { steps } => if !(!c1.active && 1 <= steps@.len() <= 64) {
                (c1, woken, false, Err(StsError::SequenceSteps))
            } else {
                match steps_fault(steps@) {
                    Some(e) => (c1, woken, false, Err(e)),
                    None => if insert_all(seq![], step_ids(steps@)).len() > 16 {
                        (c1, woken, false, Err(StsError::TooManyServos))
                    } else {
                        (
                            ControlView {
                                monitor: insert_all(seq![], step_ids(steps@)),
                                active: true,
                                sequence: true,
                                queue: c1.queue + sequence_commands(c1.tag, steps@).0,
                                tag: sequence_commands(c1.tag, steps@).1,
                                ..c1
                            },
                            woken,
                            false,
                            Ok(()),
                        )
                    },
                }
            },
            Operation::Renew => (c, seq![], false, Ok(())),
        }
    }
}

proof fn lemma_sorted_insert_at(s: Seq<u8>, x: u8, i: int)
    requires
        0 <= i <= s.len(),
        forall|k: int| 0 <= k < i ==> s[k] < x,
        i < s.len() ==> s[i] >= x,
    ensures
        sorted_insert(s, x) == if i < s.len() && s[i] == x {
            s
        } else {
            s.insert(i, x)
        },
    decreases i,
{
    if i == 0 {
        if s.len() > 0 && x < s[0] {
            assert(s.insert(0, x) =~= seq![x] + s);
        } else if s.len() == 0 {
            assert(s.insert(0, x) =~= seq![x]);
        }
    } else {
        let t = s.drop_first();
        assert forall|k: int| 0 <= k < i - 1 implies t[k] < x by {
            assert(t[k] == s[k + 1]);
        }
        lemma_sorted_insert_at(t, x, i - 1);
        assert(s[0] < x);
        if i < s.len() && s[i] == x {
            assert(t[i - 1] == s[i]);
            assert(seq![s[0]] + t =~= s);
        } else {
            if i - 1 < t.len() {
                assert(t[i - 1] == s[i]);
            }
            assert(seq![s[0]] + t.insert(i - 1, x) =~= s.insert(i, x));
        }
    }
}

/// Inserts an ID into a list, as `sorted_insert` says.
fn insert_sorted(v: &mut Vec<u8>, x: u8)
    ensures
        final(v)@ == sorted_insert(old(v)@, x),
{
    let mut i: usize = 0;
    while i < v.len() && v[i] < x
        invariant
            i <= v@.len(),
            forall|k: int| 0 <= k < i ==> v@[k] < x,
        decreases v@.len() - i,
    {
        i = i + 1;
    }
    proof {
        lemma_sorted_insert_at(v@, x, i as int);
    }
    if i < v.len() && v[i] == x {
        return;
    }
    v.insert(i, x);
}

/// The IDs of a set of targets.
fn ids_of(targets: &[Target]) -> (ids: Vec<u8>)
    ensures
        ids@ == target_ids(targets@),
{
    let mut ids: Vec<u8> = Vec::new();
    let mut i: usize = 0;
    while i < targets.len()
        invariant
            i <= targets@.len(),
            ids@ == target_ids(targets@.take(i as int)),
        decreases targets@.len() - i,
    {
        ids.push(targets[i].id);
        i = i + 1;
        assert(ids@ =~= target_ids(targets@.take(i as int)));
    }
    assert(targets@.take(targets@.len() as int) == targets@);
    ids
}

fn text(s: &str) -> (t: String)
    ensures
        t@ == s@,
{
    String::from_str(s)
}

/// What a request leaves to the worker.
pub struct RequestOutcome {
    /// Lines to send, in order (also when the request is then refused).
    pub lines: Vec<String>,
    /// The list of discovered servos starts over.
    pub clear_discovered: bool,
    pub result: Result<(), StsError>,
}

impl Control {
    /// Takes a servo management request at `now`.
    pub fn request(&mut self, op: &Operation, connected: bool, idle: bool, now: u64) -> (out:
        RequestOutcome)
        ensures
            (final(self)@, views(out.lines@), out.clear_discovered, out.result) == request_spec(
                old(self)@,
                *op,
                connected,
                idle,
                now,
            ),
    {
        let mut lines: Vec<String> = Vec::new();
        if let Operation::Renew = op {
            if self.lease.is_some() {
                self.lease = Some(now);
            }
            assert(views(lines@) =~= Seq::<Seq<char>>::empty());
            return RequestOutcome { lines, clear_discovered: false, result: Ok(()) };
        }
        assert(views(lines@) =~= Seq::<Seq<char>>::empty());
        if !connected {
            return RequestOutcome { lines, clear_discovered: false, result: Err(StsError::WaitForConnection) };
        }
        if !idle {
            return RequestOutcome { lines, clear_discovered: false, result: Err(StsError::EndDriving) };
        }
        if self.busy() {
            return RequestOutcome { lines, clear_discovered: false, result: Err(StsError::Busy) };
        }
        self.interested = true;
        lines.push(text("CAN 2 800 0100000000000000"));
        assert(views(lines@) =~= seq![wake_line()]);
        match op {
            Operation::Monitor { ids } => {
                let mut ok = ids.len() <= 16;
                let mut k: usize = 0;
                while k < ids.len()
                    invariant
                        k <= ids@.len(),
                        ok == (ids@.len() <= 16 && forall|m: int| 0 <= m < k ==> in_id_range(#[trigger] ids@[m])),
                    decreases ids@.len() - k,
                {
                    if !(1 <= ids[k] && ids[k] <= 253) {
                        ok = false;
                    }
                    k = k + 1;
                }
                if !ok {
                    return RequestOutcome { lines, clear_discovered: false, result: Err(StsError::MonitorRange) };
                }
                self.monitor = ids.clone();
                RequestOutcome { lines, clear_discovered: false, result: Ok(()) }
            },
            Operation::Read { id, address, width } => {
                if !(1 <= *id && *id <= 253 && (*width == 1 || *width == 2) && (*address as u16) + (*width as u16) <= 71) {
                    return RequestOutcome { lines, clear_discovered: false, result: Err(StsError::ReadRange) };
                }
                self.command(20, *id, [*address, *width, 0, 0], None);
                assert([*address, *width, 0u8, 0u8]@ =~= seq![*address, *width, 0u8, 0u8]);
                RequestOutcome { lines, clear_discovered: false, result: Ok(()) }
            },
            Operation::Configure { id, address, width, value, single_servo } => {
                if !(!self.active && *single_servo) {
                    return RequestOutcome { lines, clear_discovered: false, result: Err(StsError::SingleServo) };
                }
                if !(1 <= *id && *id <= 253 && (*width == 1 || *width == 2)) {
                    return RequestOutcome { lines, clear_discovered: false, result: Err(StsError::IdWidth) };
                }
                lines.push(text("CAN 2 800 0103000000000000"));
                let args: [u8; 4] = [*address, *width, (*value / 256) as u8, (*value % 256) as u8];
                self.command(21, *id, args, None);
                assert(args@ =~= seq![*address, *width, (*value / 256) as u8, (*value % 256) as u8]);
                assert(views(lines@) =~= seq![wake_line()].push(release_line()));
                RequestOutcome { lines, clear_discovered: false, result: Ok(()) }
            },
            Operation::Scan { first, last } => {
                if !(!self.active && *first >= 1 && *last <= 253 && *first <= *last) {
                    return RequestOutcome { lines, clear_discovered: false, result: Err(StsError::ScanRange) };
                }
                lines.push(text("CAN 2 800 0103000000000000"));
                assert(views(lines@) =~= seq![wake_line()].push(release_line()));
                let ghost q0 = self@.queue;
                let ghost t0 = self@.tag;
                let ghost c1 = self@;
                let mut id: u8 = *first;
                while id <= *last
                    invariant
                        *first <= id <= *last + 1,
                        1 <= *first,
                        *last <= 253,
                        self@.queue == q0 + Seq::new(
                            (id - *first) as nat,
                            |k: int| op_command(25, (*first + k) as u8, tag_after(t0, (k + 1) as nat), seq![0u8, 0, 0, 0], None),
                        ),
                        self@.tag == tag_after(t0, (id - *first) as nat),
                        self@ == (ControlView { queue: self@.queue, tag: self@.tag, ..c1 }),
                    decreases *last + 1 - id,
                {
                    let ghost before = self@.queue;
                    self.command(25, id, [0, 0, 0, 0], None);
                    proof {
                        assert([0u8, 0, 0, 0]@ =~= seq![0u8, 0, 0, 0]);
                        lemma_tag_after(t0, (id - *first) as nat, 1);
                        assert(Seq::new(
                            (id + 1 - *first) as nat,
                            |k: int| op_command(25, (*first + k) as u8, tag_after(t0, (k + 1) as nat), seq![0u8, 0, 0, 0], None),
                        ) =~= Seq::new(
                            (id - *first) as nat,
                            |k: int| op_command(25, (*first + k) as u8, tag_after(t0, (k + 1) as nat), seq![0u8, 0, 0, 0], None),
                        ).push(op_command(25, id, tag_after(t0, (id - *first + 1) as nat), seq![0u8, 0, 0, 0], None)));
                    }
                    id = id + 1;
                }
                proof {
                    assert(self@.queue =~= q0 + scan_commands(t0, *first, *last));
                }
                RequestOutcome { lines, clear_discovered: true, result: Ok(()) }
            },
            Operation::Move { targets } => {
                match validate_targets(targets.as_slice()) {
                    Err(e) => {
                        return RequestOutcome { lines, clear_discovered: false, result: Err(StsError::Targets(e)) };
                    },
                    Ok(()) => {},
                }
                self.active = true;
                let mut wheel = false;
                let mut k: usize = 0;
                while k < targets.len()
                    invariant
                        k <= targets@.len(),
                        wheel == exists|m: int| 0 <= m < k && #[trigger] targets@[m].mode == 1,
                    decreases targets@.len() - k,
                {
                    if targets[k].mode == 1 {
                        wheel = true;
                    }
                    k = k + 1;
                }
                self.lease = if wheel {
                    Some(now)
                } else {
                    None
                };
                self.motion(targets.as_slice(), 0);
                self.monitor = ids_of(targets.as_slice());
                RequestOutcome { lines, clear_discovered: false, result: Ok(()) }
            },
            Operation::Sequence { steps } => {
                if !(!self.active && 1 <= steps.len() && steps.len() <= 64) {
                    return RequestOutcome { lines, clear_discovered: false, result: Err(StsError::SequenceSteps) };
                }
                let ghost c_in = self@;
                let mut i: usize = 0;
                while i < steps.len()
                    invariant
                        i <= steps@.len(),
                        steps_fault(steps@.take(i as int)) is None,
                        self@ == c_in,
                        c_in == (ControlView { interested: true, ..old(self)@ }),
                        !c_in.active && 1 <= steps@.len() <= 64,
                        connected && idle && !busy_spec(old(self)@),
                        *op == (Operation::Sequence { steps: *steps }),
                        views(lines@) == seq![wake_line()],
                    decreases steps@.len() - i,
                {
                    assert(steps@.take(i + 1).drop_last() == steps@.take(i as int));
                    assert(steps@.take(i + 1).last() == steps@[i as int]);
                    match validate_targets(steps[i].targets.as_slice()) {
                        Err(e) => {
                            proof {
                                lemma_steps_fault_prefix(steps@, i as int + 1);
                                assert(steps_fault(steps@) == Some(StsError::Targets(e)));
                            }
                            return RequestOutcome { lines, clear_discovered: false, result: Err(StsError::Targets(e)) };
                        },
                        Ok(()) => {},
                    }
                    if !(100 <= steps[i].wait_ms && steps[i].wait_ms <= 60000) {
                        proof {
                            lemma_steps_fault_prefix(steps@, i as int + 1);
                        }
                        return RequestOutcome { lines, clear_discovered: false, result: Err(StsError::WaitRange) };
                    }
                    i = i + 1;
                }
                assert(steps@.take(steps@.len() as int) == steps@);
                let mut ids: Vec<u8> = Vec::new();
                let mut j: usize = 0;
                while j < steps.len()
                    invariant
                        j <= steps@.len(),
                        ids@ == insert_all(seq![], step_ids(steps@.take(j as int))),
                        self@ == c_in,
                        views(lines@) == seq![wake_line()],
                        steps_fault(steps@) is None,
                    decreases steps@.len() - j,
                {
                    let ts = ids_of(steps[j].targets.as_slice());
                    let ghost base = step_ids(steps@.take(j as int));
                    let mut m: usize = 0;
                    while m < ts.len()
                        invariant
                            m <= ts@.len(),
                            ids@ == insert_all(seq![], base + ts@.take(m as int)),
                        decreases ts@.len() - m,
                    {
                        insert_sorted(&mut ids, ts[m]);
                        proof {
                            assert((base + ts@.take(m + 1)).drop_last() =~= base + ts@.take(m as int));
                        }
                        m = m + 1;
                    }
                    proof {
                        assert(ts@.take(ts@.len() as int) == ts@);
                        assert(steps@.take(j + 1).drop_last() == steps@.take(j as int));
                        assert(base + ts@ == step_ids(steps@.take(j + 1)));
                    }
                    j = j + 1;
                }
                assert(steps@.take(steps@.len() as int) == steps@);
                if ids.len() > 16 {
                    return RequestOutcome { lines, clear_discovered: false, result: Err(StsError::TooManyServos) };
                }
                self.monitor = ids;
                self.active = true;
                self.sequence = true;
                let ghost c1 = self@;
                let mut n: usize = 0;
                while n < steps.len()
                    invariant
                        n <= steps@.len(),
                        steps_fault(steps@) is None,
                        self@ == (ControlView {
                            queue: c1.queue + sequence_commands(c1.tag, steps@.take(n as int)).0,
                            tag: sequence_commands(c1.tag, steps@.take(n as int)).1,
                            ..c1
                        }),
                    decreases steps@.len() - n,
                {
                    proof {
                        lemma_steps_valid(steps@, n as int);
                    }
                    let ghost r = sequence_commands(c1.tag, steps@.take(n as int));
                    self.motion(steps[n].targets.as_slice(), steps[n].wait_ms);
                    proof {
                        assert(steps@.take(n + 1).drop_last() == steps@.take(n as int));
                        assert(steps@.take(n + 1).last() == steps@[n as int]);
                        assert(c1.queue + r.0 + motion_spec(r.1, steps@[n as int].targets@, steps@[n as int].wait_ms)
                            =~= c1.queue + (r.0 + motion_spec(r.1, steps@[n as int].targets@, steps@[n as int].wait_ms)));
                    }
                    n = n + 1;
                }
                RequestOutcome { lines, clear_discovered: false, result: Ok(()) }
            },
            Operation::Renew => RequestOutcome { lines, clear_discovered: false, result: Ok(()) },
        }
    }
}

proof fn lemma_steps_fault_prefix(steps: Seq<Step>, n: int)
    requires
        0 <= n <= steps.len(),
        steps_fault(steps.take(n)) is Some,
    ensures
        steps_fault(steps) == steps_fault(steps.take(n)),
    decreases steps.len() - n,
{
    if n < steps.len() {
        assert(steps.take(n + 1).drop_last() == steps.take(n));
        lemma_steps_fault_prefix(steps, n + 1);
    } else {
        assert(steps.take(n) == steps);
    }
}

proof fn lemma_steps_valid(steps: Seq<Step>, n: int)
    requires
        0 <= n < steps.len(),
        steps_fault(steps) is None,
    ensures
        validate_targets_spec(steps[n].targets@) is Ok,
        steps[n].targets@.len() <= 16,
    decreases steps.len(),
{
    let t = steps.drop_last();
    if n < steps.len() - 1 {
        assert(t[n] == steps[n]);
        lemma_steps_valid(t, n);
    }
}

/// A servo measurement as the board reports it, before unit conversion:
/// voltage in tenths of a volt, current in raw units.
#[derive(Clone, Copy, Debug, PartialEq, Eq, Structural)]
pub struct Measurement {
    pub id: u8,
    pub elapsed_ms: u64,
    pub position: i32,
    pub speed: i32,
    pub load: i32,
    pub voltage_raw: u8,
    pub temperature: u8,
    pub current_raw: i32,
    pub moving: bool,
}

/// A confirmed operation other than a measurement, for the status line.
#[derive(Clone, Copy, Debug, PartialEq, Eq, Structural)]
pub struct Confirmation {
    pub op: u8,
    pub id: u8,
    /// The register (first argument) of the operation.
    pub register: u8,
    pub value: u16,
    pub result: u8,
    /// Nothing else is queued.
    pub queue_empty: bool,
}

/// A servo's change of ID.
#[derive(Clone, Copy, Debug, PartialEq, Eq, Structural)]
pub struct Rename {
    pub from: u8,
    pub to: u8,
}

/// What a received line tells the worker.
#[derive(Clone, Copy, Debug, PartialEq, Eq, Structural)]
pub struct Observation {
    /// A scan found this servo.
    pub discovered: Option<u8>,
    /// A servo changed its ID.
    pub renamed: Option<Rename>,
    /// The bus speed changed to this code.
    pub baud: Option<u8>,
    pub measurement: Option<Measurement>,
    pub confirmation: Option<Confirmation>,
}

pub open spec fn nothing() -> Observation {
    Observation { discovered: None, renamed: None, baud: None, measurement: None, confirmation: None }
}

/// The measurement bytes with one part of four bytes placed.
pub open spec fn gathered(bytes: Seq<u8>, part: u8, data: Seq<u8>) -> Seq<u8> {
    Seq::new(
        15,
        |n: int|
            if part * 4 <= n < part * 4 + 4 {
                data[4 + n - part * 4]
            } else {
                bytes[n]
            },
    )
}

/// A little-endian 16-bit word of the measurement.
pub open spec fn word(d: Seq<u8>, i: int) -> u16 {
    (d[i] + 256 * d[i + 1]) as u16
}

/// Each ID equal to `from` replaced by `to`.
pub open spec fn renamed_ids(ids: Seq<u8>, from: u8, to: u8) -> Seq<u8> {
    ids.map_values(|x: u8| if x == from { to } else { x })
}

/// The management after a measurement part (807) of the pending read: its
/// four bytes placed, and the part marked.
pub open spec fn after_parts(c: ControlView, line: Seq<char>) -> ControlView {
    match (frame_spec(line, 807), c.pending) {
        (Some(p), Some((cmd, _))) => if cmd.packet[1] == 24 && p[1] == cmd.packet[2] && p[2]
            == cmd.packet[3] && p[3] < 4 {
            ControlView { bytes: gathered(c.bytes, p[3], p), parts: c.parts | (1u8 << p[3]), ..c }
        } else {
            c
        },
        _ => c,
    }
}

/// The measurement in the gathered bytes of servo `id`, `elapsed_ms` after the first.
pub open spec fn measurement_spec(d: Seq<u8>, id: u8, elapsed_ms: u64) -> Measurement {
    Measurement {
        id,
        elapsed_ms,
        position: decode_signed_spec(word(d, 0), 15) as i32,
        speed: decode_signed_spec(word(d, 2), 15) as i32,
        load: decode_signed_spec(word(d, 4), 10) as i32,
        voltage_raw: d[6],
        temperature: d[7],
        current_raw: decode_signed_spec(word(d, 13), 15) as i32,
        moving: d[10] != 0,
    }
}

/// The confirmation of `cmd` by the reply `r` at `now`: a failed result
/// (other than a scan that found nothing) or a mode other than the one
/// expected is an error; a commit arms the motion; a scan that found a servo
/// reports it; a change of ID or bus speed is applied and reported; a
/// measurement needs all four parts; a wait after the operation starts.
pub open spec fn confirm_spec(c3: ControlView, r: Seq<u8>, cmd: CommandView, now: u64) -> (
    ControlView,
    Result<Observation, StsError>,
) {
    let value = (r[5] + 256 * r[6]) as u16;
    if r[4] != 0 && !(r[1] == 25 && r[4] == 3) {
        (c3, Err(StsError::Failed(r[2], r[1], r[4], r[7])))
    } else if cmd.expected is Some && cmd.expected->0 != value {
        (c3, Err(StsError::ModeMismatch(r[2], value, cmd.expected->0)))
    } else {
        let c4 = ControlView { armed: c3.armed || r[1] == 23, ..c3 };
        let changed = (cmd.packet[6] * 256 + cmd.packet[7]) as u16;
        let setting = r[1] == 21 && (cmd.packet[4] == 5 || cmd.packet[4] == 6);
        if setting && cmd.packet[4] == 6 && changed >= 8 {
            (c4, Err(StsError::BaudCode))
        } else {
            let c5 = if setting && cmd.packet[4] == 5 {
                ControlView { monitor: renamed_ids(c4.monitor, r[2], changed as u8), ..c4 }
            } else {
                c4
            };
            if r[1] == 24 && c5.parts != 15 {
                (c5, Err(StsError::MissingParts))
            } else {
                let epoch = if r[1] == 24 && c5.epoch is None {
                    Some(now)
                } else {
                    c5.epoch
                };
                (
                    ControlView {
                        epoch,
                        wait_until: if cmd.wait_ms > 0 {
                            Some((now + cmd.wait_ms) as u64)
                        } else {
                            c5.wait_until
                        },
                        ..c5
                    },
                    Ok(
                        Observation {
                            discovered: if r[1] == 25 && r[4] == 0 {
                                Some(r[2])
                            } else {
                                None
                            },
                            renamed: if setting && cmd.packet[4] == 5 {
                                Some(Rename { from: r[2], to: changed as u8 })
                            } else {
                                None
                            },
                            baud: if setting && cmd.packet[4] == 6 {
                                Some(changed as u8)
                            } else {
                                None
                            },
                            measurement: if r[1] == 24 {
                                Some(
                                    measurement_spec(
                                        c5.bytes,
                                        r[2],
                                        if now >= epoch->0 {
                                            (now - epoch->0) as u64
                                        } else {
                                            0
                                        },
                                    ),
                                )
                            } else {
                                None
                            },
                            confirmation: if r[1] != 24 {
                                Some(
                                    Confirmation {
                                        op: r[1],
                                        id: r[2],
                                        register: cmd.packet[4],
                                        value,
                                        result: r[4],
                                        queue_empty: c5.queue.len() == 0,
                                    },
                                )
                            } else {
                                None
                            },
                        },
                    ),
                )
            }
        }
    }
}

/// The management after a received line at `now`, and what the line tells.
/// A state report of the board (801) while a motion is armed must show it
/// running and accepting; a measurement part (807) of the pending read is
/// gathered; a reply (806) that matches the pending operation confirms it.
pub open spec fn observe_spec(c: ControlView, line: Seq<char>, now: u64) -> (ControlView, Result<Observation, StsError>) {
    match frame_spec(line, 801) {
        Some(st) if c.armed && !(st[1] == 0 && st[2] == 1) => (c, Err(StsError::Refused)),
        _ => {
            let c2 = after_parts(c, line);
            match (frame_spec(line, 806), c2.pending) {
                (Some(r), Some((cmd, _))) => if r.subrange(1, 4) != cmd.packet.subrange(1, 4) {
                    (c2, Ok(nothing()))
                } else {
                    confirm_spec(ControlView { pending: None, ..c2 }, r, cmd, now)
                },
                _ => (c2, Ok(nothing())),
            }
        },
    }
}

fn nothing_seen() -> (o: Observation)
    ensures
        o == nothing(),
{
    Observation { discovered: None, renamed: None, baud: None, measurement: None, confirmation: None }
}

fn measure(d: &[u8; 15], id: u8, elapsed_ms: u64) -> (m: Measurement)
    ensures
        m == measurement_spec(d@, id, elapsed_ms),
{
    let w0: u16 = d[0] as u16 + 256 * (d[1] as u16);
    let w2: u16 = d[2] as u16 + 256 * (d[3] as u16);
    let w4: u16 = d[4] as u16 + 256 * (d[5] as u16);
    let w13: u16 = d[13] as u16 + 256 * (d[14] as u16);
    Measurement {
        id,
        elapsed_ms,
        position: decode_signed(w0, 15),
        speed: decode_signed(w2, 15),
        load: decode_signed(w4, 10),
        voltage_raw: d[6],
        temperature: d[7],
        current_raw: decode_signed(w13, 15),
        moving: d[10] != 0,
    }
}

impl Control {
    fn gather_part(&mut self, line: &str)
        ensures
            final(self)@ == after_parts(old(self)@, line@),
    {
        let ghost c = self@;
        if let Some(p) = frame(line, 807) {
            if let Some((cmd, _)) = self.pending {
                if cmd.packet[1] == 24 && p[1] == cmd.packet[2] && p[2] == cmd.packet[3] && p[3] < 4 {
                    let base: usize = (p[3] as usize) * 4;
                    let ghost b0 = self.bytes@;
                    let mut k: usize = 0;
                    while k < 4
                        invariant
                            k <= 4,
                            base == p[3] * 4,
                            p[3] < 4,
                            p@.len() == 8,
                            self.bytes@.len() == 15,
                            forall|n: int|
                                0 <= n < 15 ==> self.bytes@[n] == if base <= n < base + k {
                                    p@[4 + n - base]
                                } else {
                                    b0[n]
                                },
                            self@ == (ControlView { bytes: self.bytes@, ..c }),
                        decreases 4 - k,
                    {
                        let n = base + k;
                        if n < 15 {
                            self.bytes[n] = p[4 + k];
                        }
                        k = k + 1;
                    }
                    self.parts = self.parts | (1u8 << p[3]);
                    assert(self.bytes@ =~= gathered(b0, p[3], p@));
                }
            }
        }
    }

    fn rename_monitor(&mut self, from: u8, to: u8)
        ensures
            final(self)@ == (ControlView { monitor: renamed_ids(old(self)@.monitor, from, to), ..old(self)@ }),
    {
        let ghost m0 = self.monitor@;
        let ghost c = self@;
        let mut k: usize = 0;
        while k < self.monitor.len()
            invariant
                k <= self.monitor@.len(),
                self.monitor@.len() == m0.len(),
                forall|j: int|
                    0 <= j < m0.len() ==> self.monitor@[j] == if j < k {
                        if m0[j] == from {
                            to
                        } else {
                            m0[j]
                        }
                    } else {
                        m0[j]
                    },
                self@ == (ControlView { monitor: self.monitor@, ..c }),
            decreases self.monitor@.len() - k,
        {
            if self.monitor[k] == from {
                self.monitor.set(k, to);
            }
            k = k + 1;
        }
        assert(self.monitor@ =~= renamed_ids(m0, from, to));
    }

    fn confirm(&mut self, r: &[u8; 8], cmd: Command, now: u64) -> (res: Result<Observation, StsError>)
        requires
            now <= u64::MAX - 0xffff_ffffu64,
        ensures
            (final(self)@, res) == confirm_spec(old(self)@, r@, cmd@, now),
    {
        let value: u16 = r[5] as u16 + 256 * (r[6] as u16);
        if r[4] != 0 && !(r[1] == 25 && r[4] == 3) {
            return Err(StsError::Failed(r[2], r[1], r[4], r[7]));
        }
        if let Some(e) = cmd.expected {
            if e != value {
                return Err(StsError::ModeMismatch(r[2], value, e));
            }
        }
        if r[1] == 23 {
            self.armed = true;
        }
        let changed: u16 = (cmd.packet[6] as u16) * 256 + (cmd.packet[7] as u16);
        let setting = r[1] == 21 && (cmd.packet[4] == 5 || cmd.packet[4] == 6);
        if setting && cmd.packet[4] == 6 && changed >= 8 {
            return Err(StsError::BaudCode);
        }
        if setting && cmd.packet[4] == 5 {
            self.rename_monitor(r[2], changed as u8);
        }
        if r[1] == 24 && self.parts != 15 {
            return Err(StsError::MissingParts);
        }
        let mut measurement: Option<Measurement> = None;
        if r[1] == 24 {
            if self.epoch.is_none() {
                self.epoch = Some(now);
            }
            let start = match self.epoch {
                Some(e) => e,
                None => now,
            };
            let elapsed = if now >= start {
                now - start
            } else {
                0
            };
            measurement = Some(measure(&self.bytes, r[2], elapsed));
        }
        if cmd.wait_ms > 0 {
            self.wait_until = Some(now + cmd.wait_ms as u64);
        }
        let confirmation = if r[1] != 24 {
            Some(
                Confirmation {
                    op: r[1],
                    id: r[2],
                    register: cmd.packet[4],
                    value,
                    result: r[4],
                    queue_empty: self.queue.len() == 0,
                },
            )
        } else {
            None
        };
        Ok(
            Observation {
                discovered: if r[1] == 25 && r[4] == 0 {
                    Some(r[2])
                } else {
                    None
                },
                renamed: if setting && cmd.packet[4] == 5 {
                    Some(Rename { from: r[2], to: changed as u8 })
                } else {
                    None
                },
                baud: if setting && cmd.packet[4] == 6 {
                    Some(changed as u8)
                } else {
                    None
                },
                measurement,
                confirmation,
            },
        )
    }

    /// Reads a received line at `now`.
    pub fn observe(&mut self, line: &str, now: u64) -> (r: Result<Observation, StsError>)
        requires
            now <= u64::MAX - 0xffff_ffffu64,
        ensures
            (final(self)@, r) == observe_spec(old(self)@, line@, now),
    {
        if let Some(st) = frame(line, 801) {
            if self.armed && !(st[1] == 0 && st[2] == 1) {
                return Err(StsError::Refused);
            }
        }
        self.gather_part(line);
        let r = match frame(line, 806) {
            None => {
                return Ok(nothing_seen());
            },
            Some(r) => r,
        };
        let cmd = match self.pending {
            None => {
                return Ok(nothing_seen());
            },
            Some((cmd, _)) => cmd,
        };
        if !(r[1] == cmd.packet[1] && r[2] == cmd.packet[2] && r[3] == cmd.packet[3]) {
            proof {
                if r@.subrange(1, 4) == cmd@.packet.subrange(1, 4) {
                    assert(r@.subrange(1, 4)[0] == cmd@.packet.subrange(1, 4)[0]);
                    assert(r@.subrange(1, 4)[1] == cmd@.packet.subrange(1, 4)[1]);
                    assert(r@.subrange(1, 4)[2] == cmd@.packet.subrange(1, 4)[2]);
                }
            }
            return Ok(nothing_seen());
        }
        assert(r@.subrange(1, 4) =~= cmd@.packet.subrange(1, 4));
        self.pending = None;
        self.confirm(&r, cmd, now)
    }
}

/// A wheel motion stops unless renewed within this time (ms).
pub const LEASE_MS: u64 = 150;

/// An operation must be confirmed within this time (ms).
pub const ACK_MS: u64 = 1500;

/// The monitored servos are read at most this often (ms).
pub const MONITOR_MS: u64 = 100;

/// Keeps the board's outputs alive.
pub open spec fn keepalive_line() -> Seq<char> {
    "CAN 2 800 0105000000000000"@
}

/// The read of the next monitored servo, if one is due at `now`.
pub open spec fn poll_spec(c: ControlView, now: u64) -> (ControlView, Seq<Seq<char>>) {
    if c.monitor.len() > 0 && (match c.last_poll {
        None => true,
        Some(last) => now >= last + MONITOR_MS,
    }) {
        let idx = c.monitor_index as int % c.monitor.len() as int;
        let tag = tag_after(c.tag, 1);
        let cmd = op_command(24, c.monitor[idx], tag, seq![0u8, 0, 0, 0], None);
        (
            ControlView {
                monitor_index: (idx + 1) as usize,
                last_poll: Some(now),
                tag,
                parts: 0,
                pending: Some((cmd, now)),
                ..c
            },
            seq![line_spec(cmd.packet)],
        )
    } else {
        (c, seq![])
    }
}

/// What the periodic step asks of the worker.
#[derive(Clone, Copy, Debug, PartialEq, Eq, Structural)]
pub enum TickRequest {
    Nothing,
    /// Stop every output: a wheel motion was not renewed.
    Stop,
    /// The sequence is over: stop every output.
    SequenceDone,
}

/// The periodic step at `now`: nothing unless the board is in view; when the
/// link goes stale everything is cancelled; an expired wheel lease stops; a
/// running motion is kept alive; an unconfirmed operation waits (and fails
/// after `ACK_MS`); a wait after an operation lets only the monitor run; then
/// the next queued operation is sent (awaiting its confirmation if it is an
/// extended one), the end of a sequence stops, and otherwise the monitor runs.
pub open spec fn tick_spec(c: ControlView, now: u64, fresh: bool) -> (
    ControlView,
    Seq<Seq<char>>,
    TickRequest,
    Result<(), StsError>,
) {
    if !c.interested {
        (c, seq![], TickRequest::Nothing, Ok(()))
    } else if !fresh {
        (cancelled(c), seq![], TickRequest::Nothing, Ok(()))
    } else if c.lease matches Some(last) && now > last + LEASE_MS {
        (c, seq![], TickRequest::Stop, Ok(()))
    } else {
        let alive: Seq<Seq<char>> = if c.active {
            seq![keepalive_line()]
        } else {
            seq![]
        };
        match c.pending {
            Some((_, sent)) => if now >= sent + ACK_MS {
                (c, alive, TickRequest::Nothing, Err(StsError::NoAck))
            } else {
                (c, alive, TickRequest::Nothing, Ok(()))
            },
            None => if c.wait_until matches Some(until) && now < until {
                let p = poll_spec(c, now);
                (p.0, alive + p.1, TickRequest::Nothing, Ok(()))
            } else {
                let c1 = ControlView { wait_until: None, ..c };
                if c1.queue.len() > 0 {
                    let cmd = c1.queue[0];
                    let c2 = ControlView { queue: c1.queue.drop_first(), ..c1 };
                    (
                        if cmd.packet[1] >= 20 {
                            ControlView { parts: 0, pending: Some((cmd, now)), ..c2 }
                        } else {
                            c2
                        },
                        alive.push(line_spec(cmd.packet)),
                        TickRequest::Nothing,
                        Ok(()),
                    )
                } else if c1.sequence {
                    (c1, alive, TickRequest::SequenceDone, Ok(()))
                } else {
                    let p = poll_spec(c1, now);
                    (p.0, alive + p.1, TickRequest::Nothing, Ok(()))
                }
            },
        }
    }
}

/// What the periodic step leaves to the worker.
pub struct TickOutcome {
    /// Lines to send, in order (also before an error).
    pub lines: Vec<String>,
    pub request: TickRequest,
    pub result: Result<(), StsError>,
}

impl Control {
    /// Reads the next monitored servo if one is due, sending into `lines`.
    fn poll(&mut self, now: u64, lines: &mut Vec<String>)
        ensures
            final(self)@ == poll_spec(old(self)@, now).0,
            views(final(lines)@) == views(old(lines)@) + poll_spec(old(self)@, now).1,
    {
        let due = match self.last_poll {
            None => true,
            Some(last) => now >= last && now - last >= MONITOR_MS,
        };
        if self.monitor.len() > 0 && due {
            let idx = self.monitor_index % self.monitor.len();
            let id = self.monitor[idx];
            self.monitor_index = idx + 1;
            self.last_poll = Some(now);
            let tag = self.next_tag();
            let cmd = Command { packet: [1, 24, id, tag, 0, 0, 0, 0], expected: None, wait_ms: 0 };
            self.parts = 0;
            let ghost before = lines@;
            lines.push(line(cmd.packet));
            proof {
                assert(cmd@ == op_command(24, id, tag, seq![0u8, 0, 0, 0], None));
                assert(views(lines@) =~= views(before) + seq![line_spec(cmd.packet@)]);
            }
            self.pending = Some((cmd, now));
        } else {
            assert(views(lines@) =~= views(lines@) + Seq::<Seq<char>>::empty());
        }
    }

    /// The periodic step at `now`; `fresh`: the machine's report is recent.
    pub fn tick(&mut self, now: u64, fresh: bool) -> (out: TickOutcome)
        ensures
            (final(self)@, views(out.lines@), out.request, out.result) == tick_spec(old(self)@, now, fresh),
    {
        let mut lines: Vec<String> = Vec::new();
        assert(views(lines@) =~= Seq::<Seq<char>>::empty());
        if !self.interested {
            return TickOutcome { lines, request: TickRequest::Nothing, result: Ok(()) };
        }
        if !fresh {
            self.cancel();
            return TickOutcome { lines, request: TickRequest::Nothing, result: Ok(()) };
        }
        if let Some(last) = self.lease {
            if now > last && now - last > LEASE_MS {
                return TickOutcome { lines, request: TickRequest::Stop, result: Ok(()) };
            }
        }
        if self.active {
            lines.push(text("CAN 2 800 0105000000000000"));
            assert(views(lines@) =~= seq![keepalive_line()]);
        }
        if let Some((_, sent)) = self.pending {
            if now >= sent && now - sent >= ACK_MS {
                return TickOutcome { lines, request: TickRequest::Nothing, result: Err(StsError::NoAck) };
            }
            return TickOutcome { lines, request: TickRequest::Nothing, result: Ok(()) };
        }
        if let Some(until) = self.wait_until {
            if now < until {
                self.poll(now, &mut lines);
                return TickOutcome { lines, request: TickRequest::Nothing, result: Ok(()) };
            }
            self.wait_until = None;
        }
        if self.queue.len() > 0 {
            let ghost q = self.queue@;
            let cmd = self.queue.remove(0);
            proof {
                assert(command_views(self.queue@) =~= command_views(q).drop_first());
            }
            let ghost before = lines@;
            lines.push(line(cmd.packet));
            assert(views(lines@) =~= views(before).push(line_spec(cmd.packet@)));
            if cmd.packet[1] >= 20 {
                self.parts = 0;
                self.pending = Some((cmd, now));
            }
            return TickOutcome { lines, request: TickRequest::Nothing, result: Ok(()) };
        }
        if self.sequence {
            return TickOutcome { lines, request: TickRequest::SequenceDone, result: Ok(()) };
        }
        self.poll(now, &mut lines);
        TickOutcome { lines, request: TickRequest::Nothing, result: Ok(()) }
    }
}

/// The text of each failure.
pub open spec fn sts_message(e: StsError) -> Seq<char> {
    match e {
        StsError::WaitForConnection => "接続・設定照合の完了を待ってください"@,
        StsError::EndDriving => "通常運転と個別テストを終了してください"@,
        StsError::Busy => "STS操作の完了を待つか停止してください"@,
        StsError::MonitorRange => "監視IDは1〜253、最大16台です"@,
        StsError::ReadRange => "読取り範囲が不正です"@,
        StsError::SingleServo => "出力停止と1台だけの接続確認が必要です"@,
        StsError::IdWidth => "ID・幅が不正です"@,
        StsError::ScanRange => "停止中にID1〜253の範囲で探索してください"@,
        StsError::Targets(t) => target_error_message(t),
        StsError::SequenceSteps => "停止中に1〜64ステップを指定してください"@,
        StsError::WaitRange => "待機時間は100〜60000msです"@,
        StsError::TooManyServos => "シーケンス全体で最大16台です"@,
        StsError::Refused => "SerialSVMDが停止または指令拒否を通知しました"@,
        StsError::Failed(id, op, result, flags) => "STS ID "@ + dec(id as nat) + " op="@ + dec(op as nat)
            + " result="@ + dec(result as nat) + " flags=0x"@ + hex2(flags)
            + "。設定変更中なら新旧ID/baudを確認してください"@,
        StsError::ModeMismatch(id, value, expected) => "ID "@ + dec(id as nat) + " のモードが不一致です（設定="@
            + dec(value as nat) + "、要求="@ + dec(expected as nat) + "）"@,
        StsError::BaudCode => "通信速度コードが不正です"@,
        StsError::MissingParts => "STS計測フレームが欠落しました"@,
        StsError::NoAck => "STS拡張操作の確認応答がありません。対応FWと接続を確認してください"@,
    }
}

impl StsError {
    /// The message shown to the operator.
    pub fn message(self) -> (text: String)
        ensures
            text@ == sts_message(self),
    {
        match self {
            StsError::WaitForConnection => String::from_str("接続・設定照合の完了を待ってください"),
            StsError::EndDriving => String::from_str("通常運転と個別テストを終了してください"),
            StsError::Busy => String::from_str("STS操作の完了を待つか停止してください"),
            StsError::MonitorRange => String::from_str("監視IDは1〜253、最大16台です"),
            StsError::ReadRange => String::from_str("読取り範囲が不正です"),
            StsError::SingleServo => String::from_str("出力停止と1台だけの接続確認が必要です"),
            StsError::IdWidth => String::from_str("ID・幅が不正です"),
            StsError::ScanRange => String::from_str("停止中にID1〜253の範囲で探索してください"),
            StsError::Targets(t) => t.message(),
            StsError::SequenceSteps => String::from_str("停止中に1〜64ステップを指定してください"),
            StsError::WaitRange => String::from_str("待機時間は100〜60000msです"),
            StsError::TooManyServos => String::from_str("シーケンス全体で最大16台です"),
            StsError::Refused => String::from_str("SerialSVMDが停止または指令拒否を通知しました"),
            StsError::Failed(id, op, result, flags) => {
                let mut s = String::from_str("STS ID ");
                push_dec(&mut s, id as u64);
                s.append(" op=");
                push_dec(&mut s, op as u64);
                s.append(" result=");
                push_dec(&mut s, result as u64);
                s.append(" flags=0x");
                push_hex2(&mut s, flags);
                s.append("。設定変更中なら新旧ID/baudを確認してください");
                s
            },
            StsError::ModeMismatch(id, value, expected) => {
                let mut s = String::from_str("ID ");
                push_dec(&mut s, id as u64);
                s.append(" のモードが不一致です（設定=");
                push_dec(&mut s, value as u64);
                s.append("、要求=");
                push_dec(&mut s, expected as u64);
                s.append("）");
                s
            },
            StsError::BaudCode => String::from_str("通信速度コードが不正です"),
            StsError::MissingParts => String::from_str("STS計測フレームが欠落しました"),
            StsError::NoAck => String::from_str(
                "STS拡張操作の確認応答がありません。対応FWと接続を確認してください",
            ),
        }
    }
}

/// The status line for a confirmed operation: a register read shows its
/// value, a scan its progress and the number of servos found so far, any
/// other operation its result.
pub open spec fn confirmation_message_spec(c: Confirmation, discovered: usize) -> Seq<char> {
    if c.op == 20 {
        "ID "@ + dec(c.id as nat) + " レジスタ"@ + dec(c.register as nat) + " = "@ + dec(c.value as nat)
    } else if c.op == 25 {
        "ID "@ + dec(c.id as nat) + " まで探索"@ + (if c.queue_empty {
            "完了"@
        } else {
            "中"@
        }) + "・"@ + dec(discovered as nat) + "台検出"@
    } else {
        "ID "@ + dec(c.id as nat) + " op="@ + dec(c.op as nat) + " 確認済み（result="@ + dec(
            c.result as nat,
        ) + "）"@
    }
}

/// The status line for a confirmed operation, with `discovered` servos found so far.
pub fn confirmation_message(c: Confirmation, discovered: usize) -> (text: String)
    ensures
        text@ == confirmation_message_spec(c, discovered),
{
    let mut s = String::from_str("ID ");
    push_dec(&mut s, c.id as u64);
    if c.op == 20 {
        s.append(" レジスタ");
        push_dec(&mut s, c.register as u64);
        s.append(" = ");
        push_dec(&mut s, c.value as u64);
    } else if c.op == 25 {
        s.append(" まで探索");
        if c.queue_empty {
            s.append("完了");
        } else {
            s.append("中");
        }
        s.append("・");
        push_dec(&mut s, discovered as u64);
        s.append("台検出");
    } else {
        s.append(" op=");
        push_dec(&mut s, c.op as u64);
        s.append(" 確認済み（result=");
        push_dec(&mut s, c.result as u64);
        s.append("）");
    }
    s
}

/// Operations are exclusive: while one is queued, unconfirmed or awaited,
/// every other request (but a lease renewal) is refused and changes nothing.
pub proof fn lemma_busy_refuses(c: ControlView, op: Operation, now: u64)
    requires
        busy_spec(c),
        !(op is Renew),
    ensures
        request_spec(c, op, true, true, now) == (c, Seq::<Seq<char>>::empty(), false, Err::<(), StsError>(StsError::Busy)),
{
}

/// One extended operation at a time: while one awaits its confirmation, a
/// tick sends nothing from the queue and keeps it pending.
pub proof fn lemma_one_in_flight(c: ControlView, now: u64)
    requires
        c.pending is Some,
        c.interested,
    ensures
        tick_spec(c, now, true).0 == c,
{
}

/// A reply that does not match the pending operation (another operation,
/// servo or tag) never confirms it.
pub proof fn lemma_stale_reply_ignored(c: ControlView, line: Seq<char>, now: u64, cmd: CommandView, sent: u64)
    requires
        c.pending == Some((cmd, sent)),
        frame_spec(line, 806) matches Some(r) && r.subrange(1, 4) != cmd.packet.subrange(1, 4),
    ensures
        observe_spec(c, line, now).0.pending == c.pending,
        observe_spec(c, line, now).1 is Ok ==> observe_spec(c, line, now).1 == Ok::<Observation, StsError>(nothing()),
{
}

/// A wheel motion that is not renewed in time stops; nothing is sent and
/// nothing restarts it.
pub proof fn lemma_unrenewed_wheel_stops(c: ControlView, now: u64)
    requires
        c.interested,
        c.lease matches Some(last) && now > last + LEASE_MS,
    ensures
        tick_spec(c, now, true) == (c, Seq::<Seq<char>>::empty(), TickRequest::Stop, Ok::<(), StsError>(())),
{
}

/// A measurement is read from the STS register block that the four parts of
/// the reply gather: the second part (registers 4 to 7) carries the voltage
/// in its third data byte and the temperature in its fourth, and placing
/// any other part afterwards leaves both as that part gave them.
pub proof fn lemma_measurement_from_parts(
    bytes: Seq<u8>,
    data: Seq<u8>,
    part: u8,
    other: Seq<u8>,
    id: u8,
    elapsed_ms: u64,
)
    requires
        bytes.len() == 15,
        data.len() == 8,
        other.len() == 8,
        part < 4,
        part != 1,
    ensures
        measurement_spec(gathered(bytes, 1, data), id, elapsed_ms).voltage_raw == data[6],
        measurement_spec(gathered(bytes, 1, data), id, elapsed_ms).temperature == data[7],
        measurement_spec(gathered(gathered(bytes, 1, data), part, other), id, elapsed_ms).voltage_raw
            == data[6],
        measurement_spec(gathered(gathered(bytes, 1, data), part, other), id, elapsed_ms).temperature
            == data[7],
{
    let g = gathered(bytes, 1, data);
    assert(g[6] == data[6]);
    assert(g[7] == data[7]);
    let h = gathered(g, part, other);
    assert(h[6] == g[6]);
    assert(h[7] == g[7]);
}

/// A measurement that a reply confirms reports the voltage and temperature
/// registers (6 and 7) of the block gathered for it, and the servo that replied.
pub proof fn lemma_confirmed_measurement(c3: ControlView, r: Seq<u8>, cmd: CommandView, now: u64)
    ensures
        confirm_spec(c3, r, cmd, now).1 matches Ok(o) ==> (o.measurement matches Some(m) ==> (
        m.voltage_raw == c3.bytes[6] && m.temperature == c3.bytes[7] && m.id == r[2])),
{
}

/// The other readings of a measurement, by register of the gathered block:
/// position in registers 0 and 1 and speed in 2 and 3 (little-endian, sign
/// bit 15), load in 4 and 5 (sign bit 10), the moving flag in register 10 and
/// the current in 13 and 14 (sign bit 15).
pub proof fn lemma_measurement_registers(d: Seq<u8>, id: u8, elapsed_ms: u64)
    requires
        d.len() == 15,
    ensures
        measurement_spec(d, id, elapsed_ms).position == decode_signed_spec(
            (d[0] + 256 * d[1]) as u16,
            15,
        ) as i32,
        measurement_spec(d, id, elapsed_ms).speed == decode_signed_spec((d[2] + 256 * d[3]) as u16, 15)
            as i32,
        measurement_spec(d, id, elapsed_ms).load == decode_signed_spec((d[4] + 256 * d[5]) as u16, 10)
            as i32,
        measurement_spec(d, id, elapsed_ms).current_raw == decode_signed_spec(
            (d[13] + 256 * d[14]) as u16,
            15,
        ) as i32,
        measurement_spec(d, id, elapsed_ms).moving == (d[10] != 0),
        measurement_spec(d, id, elapsed_ms).id == id,
        measurement_spec(d, id, elapsed_ms).elapsed_ms == elapsed_ms,
{
}

} // verus!
