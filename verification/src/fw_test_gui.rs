//! The queue of test operations between the operator's panel and the worker:
//! only the worker owns the serial link and the session, the panel asks.
//! Also the texts and checks the panel and the worker share.
use vstd::prelude::*;
use vstd::string::*;
use crate::diagnostics::fw_test::{Board, board_key, expiry_views, has_prefix, members_spec};
use crate::fw_test_transport::probed;
use crate::text::{chars_eq, chars_of, dec, push_dec, starts_with, views};

verus! {

/// The most operations that wait in the queue.
pub const QUEUE_LIMIT: usize = 16;

/// The most log lines the panel keeps.
pub const LOG_LIMIT: usize = 120;

/// What the operator chose for a test session.
#[derive(Clone, Debug)]
pub struct Config {
    pub board: Board,
    pub device: String,
    pub baud: u32,
    /// How long an output stays on, in seconds.
    pub seconds: u64,
}

pub struct ConfigView {
    pub board: Board,
    pub device: Seq<char>,
    pub baud: u32,
    pub seconds: u64,
}

impl View for Config {
    type V = ConfigView;

    open spec fn view(&self) -> ConfigView {
        ConfigView { board: self.board, device: self.device@, baud: self.baud, seconds: self.seconds }
    }
}

impl Config {
    /// A copy of the configuration.
    pub fn duplicate(&self) -> (c: Config)
        ensures
            c@ == self@,
    {
        Config { board: self.board, device: self.device.clone(), baud: self.baud, seconds: self.seconds }
    }
}

/// What the worker reports to the panel. Times are milliseconds.
#[derive(Clone, Debug)]
pub struct Snapshot {
    /// When the board's inputs were last received.
    pub input_rx: Option<u64>,
    /// The outputs that are on, with their switch-off times.
    pub outputs: Vec<(String, u64)>,
    /// The boards behind cctl that did not answer.
    pub missing: Vec<String>,
    /// The worker finished its handshake and takes operations.
    pub ready: bool,
    pub switches: Vec<String>,
    /// The watchdog test runs: the link is deliberately silent.
    pub watchdog: bool,
    pub error: Option<String>,
    pub logs: Vec<String>,
    /// When a line was last received.
    pub last_rx: Option<u64>,
}

pub struct SnapshotView {
    pub input_rx: Option<u64>,
    pub outputs: Seq<(Seq<char>, u64)>,
    pub missing: Seq<Seq<char>>,
    pub ready: bool,
    pub switches: Seq<Seq<char>>,
    pub watchdog: bool,
    pub error: Option<Seq<char>>,
    pub logs: Seq<Seq<char>>,
    pub last_rx: Option<u64>,
}

pub open spec fn text_view(t: Option<String>) -> Option<Seq<char>> {
    match t {
        Some(t) => Some(t@),
        None => None,
    }
}

impl View for Snapshot {
    type V = SnapshotView;

    open spec fn view(&self) -> SnapshotView {
        SnapshotView {
            input_rx: self.input_rx,
            outputs: expiry_views(self.outputs@),
            missing: views(self.missing@),
            ready: self.ready,
            switches: views(self.switches@),
            watchdog: self.watchdog,
            error: text_view(self.error),
            logs: views(self.logs@),
            last_rx: self.last_rx,
        }
    }
}

/// The report before a worker said anything.
pub open spec fn blank() -> SnapshotView {
    SnapshotView {
        input_rx: None,
        outputs: seq![],
        missing: seq![],
        ready: false,
        switches: seq![],
        watchdog: false,
        error: None,
        logs: seq![],
        last_rx: None,
    }
}

impl Default for Snapshot {
    fn default() -> (s: Snapshot)
        ensures
            s@ == blank(),
    {
        let s = Snapshot {
            input_rx: None,
            outputs: Vec::new(),
            missing: Vec::new(),
            ready: false,
            switches: Vec::new(),
            watchdog: false,
            error: None,
            logs: Vec::new(),
            last_rx: None,
        };
        assert(s@.outputs =~= Seq::<(Seq<char>, u64)>::empty());
        assert(s@.missing =~= Seq::<Seq<char>>::empty());
        assert(s@.switches =~= Seq::<Seq<char>>::empty());
        assert(s@.logs =~= Seq::<Seq<char>>::empty());
        s
    }
}

fn copy_texts(v: &Vec<String>) -> (r: Vec<String>)
    ensures
        views(r@) == views(v@),
{
    let mut r: Vec<String> = Vec::new();
    let mut i: usize = 0;
    while i < v.len()
        invariant
            i <= v@.len(),
            views(r@) == views(v@.take(i as int)),
        decreases v@.len() - i,
    {
        let ghost before = r@;
        r.push(v[i].clone());
        assert(views(r@) =~= views(before).push(v@[i as int]@));
        assert(v@.take(i + 1) == v@.take(i as int).push(v@[i as int]));
        i = i + 1;
        assert(views(r@) =~= views(v@.take(i as int)));
    }
    assert(v@.take(v@.len() as int) == v@);
    r
}

impl Snapshot {
    /// A copy of the report.
    pub fn duplicate(&self) -> (s: Snapshot)
        ensures
            s@ == self@,
    {
        let mut outputs: Vec<(String, u64)> = Vec::new();
        let mut i: usize = 0;
        while i < self.outputs.len()
            invariant
                i <= self.outputs@.len(),
                expiry_views(outputs@) == expiry_views(self.outputs@.take(i as int)),
            decreases self.outputs@.len() - i,
        {
            let ghost before = outputs@;
            let name = self.outputs[i].0.clone();
            outputs.push((name, self.outputs[i].1));
            assert(expiry_views(outputs@) =~= expiry_views(before).push(
                (self.outputs@[i as int].0@, self.outputs@[i as int].1),
            ));
            assert(self.outputs@.take(i + 1) == self.outputs@.take(i as int).push(
                self.outputs@[i as int],
            ));
            i = i + 1;
            assert(expiry_views(outputs@) =~= expiry_views(self.outputs@.take(i as int)));
        }
        assert(self.outputs@.take(self.outputs@.len() as int) == self.outputs@);
        let error = match &self.error {
            Some(e) => Some(e.clone()),
            None => None,
        };
        Snapshot {
            input_rx: self.input_rx,
            outputs,
            missing: copy_texts(&self.missing),
            ready: self.ready,
            switches: copy_texts(&self.switches),
            watchdog: self.watchdog,
            error,
            logs: copy_texts(&self.logs),
            last_rx: self.last_rx,
        }
    }
}

/// What the queue holds.
pub struct ControlView {
    /// A worker owns the link (from `start` until `finish`).
    pub active: bool,
    /// The session the operator wants; `None` once it was ended.
    pub config: Option<ConfigView>,
    /// Operations waiting for the worker, oldest first.
    pub commands: Seq<Seq<char>>,
    /// What the worker reported last.
    pub snapshot: SnapshotView,
}

/// The queue of test operations, and the worker's report.
pub struct Control {
    active: bool,
    config: Option<Config>,
    commands: Vec<String>,
    snapshot: Snapshot,
}

pub open spec fn config_view(c: Option<Config>) -> Option<ConfigView> {
    match c {
        Some(c) => Some(c@),
        None => None,
    }
}

impl View for Control {
    type V = ControlView;

    closed spec fn view(&self) -> ControlView {
        ControlView {
            active: self.active,
            config: config_view(self.config),
            commands: views(self.commands@),
            snapshot: self.snapshot@,
        }
    }
}

/// The queue with no session.
pub open spec fn idle() -> ControlView {
    ControlView { active: false, config: None, commands: seq![], snapshot: blank() }
}

/// The queue after an operation was offered: `stop` replaces everything that
/// waits; any other operation joins only while a session is configured, its
/// handshake is done, the watchdog test is not running and the queue has room.
pub open spec fn offer(c: ControlView, command: Seq<char>) -> ControlView {
    if command == "stop"@ {
        ControlView { commands: seq![command], ..c }
    } else if c.config.is_some() && c.snapshot.ready && !c.snapshot.watchdog && c.commands.len()
        < QUEUE_LIMIT {
        ControlView { commands: c.commands.push(command), ..c }
    } else {
        c
    }
}

impl Default for Control {
    fn default() -> (c: Control)
        ensures
            c@ == idle(),
    {
        let c = Control {
            active: false,
            config: None,
            commands: Vec::new(),
            snapshot: Snapshot::default(),
        };
        assert(c@.commands =~= Seq::<Seq<char>>::empty());
        c
    }
}

impl Control {
    /// The session the operator wants, if any.
    pub fn config(&self) -> (c: Option<Config>)
        ensures
            config_view(c) == self@.config,
    {
        match &self.config {
            Some(c) => Some(c.duplicate()),
            None => None,
        }
    }

    /// Whether a worker owns the link.
    pub fn enabled(&self) -> (b: bool)
        ensures
            b == self@.active,
    {
        self.active
    }

    /// A copy of the worker's report.
    pub fn snapshot(&self) -> (s: Snapshot)
        ensures
            s@ == self@.snapshot,
    {
        self.snapshot.duplicate()
    }

    /// Starts a session unless a worker still owns the link; a new session
    /// starts with an empty queue and a blank report, before its handshake.
    pub fn start(&mut self, config: Config)
        ensures
            final(self)@ == if old(self)@.active {
                old(self)@
            } else {
                ControlView { active: true, config: Some(config@), ..idle() }
            },
    {
        if self.active {
            return;
        }
        self.active = true;
        self.config = Some(config);
        self.commands = Vec::new();
        self.snapshot = Snapshot::default();
        assert(self@.commands =~= Seq::<Seq<char>>::empty());
    }

    /// The operator ends the session: nothing more is taken, but the worker
    /// keeps the link until it has stopped every output.
    pub fn end(&mut self)
        ensures
            final(self)@ == (ControlView {
                config: None,
                commands: seq![],
                snapshot: SnapshotView { ready: false, ..old(self)@.snapshot },
                ..old(self)@
            }),
    {
        self.config = None;
        self.commands.clear();
        self.snapshot.ready = false;
        assert(self@.commands =~= Seq::<Seq<char>>::empty());
    }

    /// The worker has released the link.
    pub fn finish(&mut self)
        ensures
            final(self)@ == (ControlView { active: false, config: None, commands: seq![], ..old(self)@ }),
    {
        self.active = false;
        self.config = None;
        self.commands.clear();
        assert(self@.commands =~= Seq::<Seq<char>>::empty());
    }

    /// Offers an operation to the worker.
    pub fn command(&mut self, command: String)
        ensures
            final(self)@ == offer(old(self)@, command@),
    {
        let chars = chars_of(command.as_str());
        if chars_eq(chars.as_slice(), "stop") {
            self.commands.clear();
            self.commands.push(command);
            assert(self@.commands =~= seq![command@]);
        } else if self.config.is_some() && self.snapshot.ready && !self.snapshot.watchdog
            && self.commands.len() < QUEUE_LIMIT {
            let ghost before = self.commands@;
            self.commands.push(command);
            assert(views(self.commands@) =~= views(before).push(command@));
        }
    }

    /// The oldest waiting operation, taken out of the queue.
    pub fn take(&mut self) -> (next: Option<String>)
        ensures
            old(self)@.commands.len() == 0 ==> next.is_none() && final(self)@ == old(self)@,
            old(self)@.commands.len() > 0 ==> next.is_some() && next.unwrap()@
                == old(self)@.commands[0] && final(self)@ == (ControlView {
                commands: old(self)@.commands.drop_first(),
                ..old(self)@
            }),
    {
        if self.commands.len() == 0 {
            None
        } else {
            let ghost before = self.commands@;
            let first = self.commands.remove(0);
            assert(views(self.commands@) =~= views(before).drop_first());
            Some(first)
        }
    }

    /// The worker replaces its report.
    pub fn update(&mut self, snapshot: Snapshot)
        ensures
            final(self)@ == (ControlView { snapshot: snapshot@, ..old(self)@ }),
    {
        self.snapshot = snapshot;
    }
}

/// Offering `stop` leaves it alone in the queue, whatever waited before.
pub proof fn lemma_stop_discards_pending(c: ControlView)
    ensures
        offer(c, "stop"@).commands == seq!["stop"@],
{
}

/// Before the handshake, after the session was ended, and while the watchdog
/// test runs, only `stop` is queued.
pub proof fn lemma_blocked_queue_takes_only_stop(c: ControlView, command: Seq<char>)
    requires
        !c.snapshot.ready || c.snapshot.watchdog || c.config.is_none(),
        command != "stop"@,
    ensures
        offer(c, command) == c,
{
}

/// The queue never holds more than its limit.
pub proof fn lemma_queue_bounded(c: ControlView, command: Seq<char>)
    requires
        c.commands.len() <= QUEUE_LIMIT,
    ensures
        offer(c, command).commands.len() <= QUEUE_LIMIT,
{
}

/// A feature name as typed: prefixed by the board in a network session.
pub open spec fn feature_spec(network: bool, board: Board, name: Seq<char>) -> Seq<char> {
    if network {
        board_key(board) + "."@ + name
    } else {
        name
    }
}

/// The feature name for the panel's switches.
pub fn feature(network: bool, board: Board, name: &str) -> (f: String)
    ensures
        f@ == feature_spec(network, board, name@),
{
    if network {
        let mut f = String::from_str(board.key());
        f.append(".");
        f.append(name);
        f
    } else {
        name.to_string()
    }
}

/// The board's name on the panel.
pub open spec fn board_name_spec(board: Board) -> Seq<char> {
    match board {
        Board::Cctl => "cctl"@,
        Board::Svmd => "svmd"@,
        Board::SerialSvmd => "serial_svmd"@,
        Board::Dcmd => "DCMD"@,
        Board::Network => "ネットワーク一括"@,
    }
}

/// The board's name on the panel.
pub fn board_name(board: Board) -> (name: &'static str)
    ensures
        name@ == board_name_spec(board),
{
    match board {
        Board::Cctl => "cctl",
        Board::Svmd => "svmd",
        Board::SerialSvmd => "serial_svmd",
        Board::Dcmd => "DCMD",
        Board::Network => "ネットワーク一括",
    }
}

/// How the operator wires the target.
pub open spec fn connection_hint_spec(board: Board) -> Seq<char> {
    match board {
        Board::Network => "cctlのUSB 1本で、cctl・svmd・DCMDを繋ぎ替えずにまとめて確認します。"@,
        Board::Cctl => "USB CDCへ直接繋ぎます。"@,
        Board::Svmd => "cctlのFDCAN2経由。接続先はcctlのUSB CDCです。"@,
        Board::SerialSvmd => "USART2のUSBシリアル変換器へ直接繋ぎます（既定38400 baud）。"@,
        Board::Dcmd => "cctlのFDCAN2経由。接続先はcctlのUSB CDCです。"@,
    }
}

/// How the operator wires the target.
pub fn connection_hint(board: Board) -> (hint: &'static str)
    ensures
        hint@ == connection_hint_spec(board),
{
    match board {
        Board::Network => "cctlのUSB 1本で、cctl・svmd・DCMDを繋ぎ替えずにまとめて確認します。",
        Board::Cctl => "USB CDCへ直接繋ぎます。",
        Board::Svmd => "cctlのFDCAN2経由。接続先はcctlのUSB CDCです。",
        Board::SerialSvmd => "USART2のUSBシリアル変換器へ直接繋ぎます（既定38400 baud）。",
        Board::Dcmd => "cctlのFDCAN2経由。接続先はcctlのUSB CDCです。",
    }
}

/// The heading of an output row: the device wired to the board, not the machine's axis.
pub open spec fn output_label_spec(board: Board, id: u8) -> Seq<char> {
    match board {
        Board::Cctl => if id == 0 {
            "slot 0 — EL05"@
        } else if id == 1 {
            "slot 1 — M3508+C620"@
        } else {
            "slot 2 — DM-S3519"@
        },
        Board::Svmd => "ch "@ + dec(id as nat) + " — PWMサーボ"@,
        Board::SerialSvmd => "ID "@ + dec(id as nat) + " — STS3215"@,
        _ => "PWM0 — DCモータ"@,
    }
}

/// The heading of an output row.
pub fn output_label(board: Board, id: u8) -> (label: String)
    ensures
        label@ == output_label_spec(board, id),
{
    match board {
        Board::Cctl => if id == 0 {
            String::from_str("slot 0 — EL05")
        } else if id == 1 {
            String::from_str("slot 1 — M3508+C620")
        } else {
            String::from_str("slot 2 — DM-S3519")
        },
        Board::Svmd => {
            let mut s = String::from_str("ch ");
            push_dec(&mut s, id as u64);
            s.append(" — PWMサーボ");
            s
        },
        Board::SerialSvmd => {
            let mut s = String::from_str("ID ");
            push_dec(&mut s, id as u64);
            s.append(" — STS3215");
            s
        },
        _ => String::from_str("PWM0 — DCモータ"),
    }
}

/// The probed boards of `board` that are not among `reachable`, by key, in order.
pub open spec fn missing_spec(members: Seq<Board>, reachable: Seq<Board>) -> Seq<Seq<char>>
    decreases members.len(),
{
    if members.len() == 0 {
        seq![]
    } else {
        let rest = missing_spec(members.drop_last(), reachable);
        let b = members.last();
        if probed(b) && !reachable.contains(b) {
            rest.push(board_key(b))
        } else {
            rest
        }
    }
}

/// The boards behind cctl that did not answer, for the panel.
pub fn missing_boards(board: Board, reachable: &[Board]) -> (keys: Vec<String>)
    ensures
        views(keys@) == missing_spec(members_spec(board), reachable@),
{
    let members = board.members();
    let mut keys: Vec<String> = Vec::new();
    let mut i: usize = 0;
    while i < members.len()
        invariant
            members@ == members_spec(board),
            i <= members@.len(),
            views(keys@) == missing_spec(members@.take(i as int), reachable@),
        decreases members@.len() - i,
    {
        let b = members[i];
        assert(members@.take(i + 1).drop_last() == members@.take(i as int));
        let mut seen = false;
        let mut j: usize = 0;
        while j < reachable.len()
            invariant
                j <= reachable@.len(),
                seen <==> exists|k: int| 0 <= k < j && reachable@[k] == b,
            decreases reachable@.len() - j,
        {
            if reachable[j] == b {
                seen = true;
            }
            j = j + 1;
        }
        let ghost before = keys@;
        if matches!(b, Board::Svmd | Board::Dcmd) && !seen {
            keys.push(String::from_str(b.key()));
            assert(views(keys@) =~= views(before).push(board_key(b)));
        }
        i = i + 1;
    }
    assert(members@.take(members@.len() as int) == members@);
    keys
}

/// Whether a received line reports that the firmware refused a command: an
/// `ERR` line, or a gateway reply with status 1 from svmd or DCMD.
pub open spec fn rejected_spec(line: Seq<char>) -> bool {
    ||| has_prefix(line, "ERR "@)
    ||| has_prefix(line, "CAN_RX bus=2 id=769 data=0101"@)
    ||| has_prefix(line, "CAN_RX bus=2 id=785 data=0101"@)
}

/// Whether a received line reports that the firmware refused a command.
pub fn rejected(line: &str) -> (b: bool)
    ensures
        b == rejected_spec(line@),
{
    let chars = chars_of(line);
    starts_with(chars.as_slice(), "ERR ") || starts_with(chars.as_slice(), "CAN_RX bus=2 id=769 data=0101")
        || starts_with(chars.as_slice(), "CAN_RX bus=2 id=785 data=0101")
}

/// The newest `LOG_LIMIT` lines of a log.
pub open spec fn newest(log: Seq<Seq<char>>) -> Seq<Seq<char>> {
    if log.len() > LOG_LIMIT {
        log.skip(log.len() - LOG_LIMIT)
    } else {
        log
    }
}

/// Adds a line to the panel's log, keeping only the newest `LOG_LIMIT` lines.
pub fn push_log(logs: &mut Vec<String>, line: String)
    ensures
        views(final(logs)@) == newest(views(old(logs)@).push(line@)),
{
    let ghost all = views(old(logs)@).push(line@);
    logs.push(line);
    assert(views(logs@) =~= all);
    while logs.len() > LOG_LIMIT
        invariant
            all.len() >= logs@.len(),
            logs@.len() == all.len() || logs@.len() >= LOG_LIMIT,
            views(logs@) == all.skip(all.len() - logs@.len()),
        decreases logs@.len(),
    {
        let ghost before = logs@;
        logs.remove(0);
        assert(views(logs@) =~= views(before).drop_first());
        assert(views(logs@) =~= all.skip(all.len() - logs@.len()));
    }
    assert(all.skip(0) =~= all);
}

} // verus!
