//! The requests that the GUI and the local API hand to the worker: which are
//! answered at once, which wait in the queue, and which clear it.
use vstd::prelude::*;
use vstd::string::*;
use crate::text::{chars_eq, chars_of};

verus! {

/// How many requests may wait for the worker at once.
pub const PENDING_LIMIT: usize = 32;

/// How long a queued request stays valid, in milliseconds.
pub const DEADLINE_MS: u64 = 1000;

/// How long a caller waits for the worker's answer, in milliseconds.
pub const ANSWER_WAIT_MS: u64 = 2000;

/// How many lines the shared status log keeps.
pub const STATUS_LOG_LIMIT: usize = 300;

/// A request waiting for the worker.
pub struct Pending<T> {
    pub request: T,
    /// It came from a person at the GUI.
    pub manual: bool,
    /// After this time the worker refuses it.
    pub deadline_ms: u64,
}

/// A request answered from a snapshot, without the worker.
#[derive(Clone, Copy, Debug, PartialEq, Eq, Structural)]
pub enum Query {
    Status,
    Config,
}

/// What became of an offered request.
pub enum Offer<T> {
    /// Answer it from a snapshot.
    Query(Query),
    /// It waits for the worker; these waiting requests were dropped for it.
    Queued(Vec<Pending<T>>),
    /// Refused: the queue is full.
    Busy,
}

/// Why a request got no answer from the worker.
#[derive(Clone, Copy, Debug, PartialEq, Eq, Structural)]
pub enum IntakeError {
    /// A stop request dropped it from the queue.
    Preempted,
    /// The queue was full.
    Busy,
    /// The worker did not answer in time.
    NoAnswer,
    /// The emergency stop was engaged before it ran.
    Emergency,
    /// Its deadline passed before the worker took it.
    Expired,
}

pub open spec fn intake_message(e: IntakeError) -> Seq<char> {
    match e {
        IntakeError::Preempted => "停止要求により取消"@,
        IntakeError::Busy => "操作受付が混雑しています"@,
        IntakeError::NoAnswer => "応答期限切れ。状態を確認してください"@,
        IntakeError::Emergency => "緊停により取消"@,
        IntakeError::Expired => "要求の実行期限切れ"@,
    }
}

impl IntakeError {
    /// The message shown to the caller.
    pub fn message(self) -> (text: String)
        ensures
            text@ == intake_message(self),
    {
        match self {
            IntakeError::Preempted => String::from_str("停止要求により取消"),
            IntakeError::Busy => String::from_str("操作受付が混雑しています"),
            IntakeError::NoAnswer => String::from_str("応答期限切れ。状態を確認してください"),
            IntakeError::Emergency => String::from_str("緊停により取消"),
            IntakeError::Expired => String::from_str("要求の実行期限切れ"),
        }
    }
}

/// The query that an action names, if it names one.
pub open spec fn query_of(action: Seq<char>) -> Option<Query> {
    if action == "status"@ {
        Some(Query::Status)
    } else if action == "config"@ {
        Some(Query::Config)
    } else {
        None
    }
}

/// Whether an action clears the queue and goes first.
pub open spec fn preempts(action: Seq<char>) -> bool {
    action == "stop"@ || action == "estop"@
}

/// The queue as the contracts see it.
pub struct IntakeView<T> {
    pub pending: Seq<Pending<T>>,
    /// An emergency stop was asked for and the worker has not yet seen it.
    pub emergency: bool,
}

/// What an offer returns, as the contracts see it.
pub enum OfferView<T> {
    Query(Query),
    Queued(Seq<Pending<T>>),
    Busy,
}

impl<T> View for Offer<T> {
    type V = OfferView<T>;

    open spec fn view(&self) -> OfferView<T> {
        match self {
            Offer::Query(q) => OfferView::Query(*q),
            Offer::Queued(v) => OfferView::Queued(v@),
            Offer::Busy => OfferView::Busy,
        }
    }
}

/// The answer to an offer of `entry` under `action`, and the queue after it.
pub open spec fn offer_spec<T>(before: IntakeView<T>, action: Seq<char>, entry: Pending<T>) -> (
    OfferView<T>,
    IntakeView<T>,
) {
    if let Some(q) = query_of(action) {
        (OfferView::Query(q), before)
    } else if preempts(action) {
        (
            OfferView::Queued(before.pending),
            IntakeView {
                pending: seq![entry],
                emergency: before.emergency || action == "estop"@,
            },
        )
    } else if before.pending.len() >= PENDING_LIMIT {
        (OfferView::Busy, before)
    } else {
        (
            OfferView::Queued(Seq::empty()),
            IntakeView { pending: before.pending.push(entry), emergency: before.emergency },
        )
    }
}

/// The requests that wait for the worker, in the order it takes them.
pub struct Intake<T> {
    queue: Vec<Pending<T>>,
    emergency: bool,
}

impl<T> View for Intake<T> {
    type V = IntakeView<T>;

    closed spec fn view(&self) -> IntakeView<T> {
        IntakeView { pending: self.queue@, emergency: self.emergency }
    }
}

impl<T> Intake<T> {
    /// An empty queue.
    pub fn new() -> (r: Self)
        ensures
            r@.pending.len() == 0,
            !r@.emergency,
    {
        Intake { queue: Vec::new(), emergency: false }
    }

    /// Offers a request. Status and configuration queries are answered at
    /// once; `stop` and `estop` drop every waiting request and go first, and
    /// `estop` also flags the emergency for the worker; any other request
    /// waits at the back unless `PENDING_LIMIT` requests already wait. A
    /// queued request is valid until `DEADLINE_MS` after `now_ms`.
    pub fn offer(&mut self, action: &str, request: T, manual: bool, now_ms: u64) -> (r: Offer<T>)
        requires
            now_ms <= u64::MAX - DEADLINE_MS,
        ensures
            (r@, final(self)@) == offer_spec(
                old(self)@,
                action@,
                Pending { request, manual, deadline_ms: (now_ms + DEADLINE_MS) as u64 },
            ),
    {
        let a = chars_of(action);
        if chars_eq(&a, "status") {
            return Offer::Query(Query::Status);
        }
        if chars_eq(&a, "config") {
            return Offer::Query(Query::Config);
        }
        let entry = Pending { request, manual, deadline_ms: now_ms + DEADLINE_MS };
        let estop = chars_eq(&a, "estop");
        if estop || chars_eq(&a, "stop") {
            if estop {
                self.emergency = true;
            }
            let mut queue: Vec<Pending<T>> = Vec::new();
            queue.push(entry);
            std::mem::swap(&mut queue, &mut self.queue);
            assert(self.queue@ =~= seq![entry]);
            return Offer::Queued(queue);
        }
        if self.queue.len() >= PENDING_LIMIT {
            return Offer::Busy;
        }
        self.queue.push(entry);
        Offer::Queued(Vec::new())
    }

    /// Hands every waiting request to the worker, first first.
    pub fn take(&mut self) -> (r: Vec<Pending<T>>)
        ensures
            r@ == old(self)@.pending,
            final(self)@.pending.len() == 0,
            final(self)@.emergency == old(self)@.emergency,
    {
        let mut queue: Vec<Pending<T>> = Vec::new();
        std::mem::swap(&mut queue, &mut self.queue);
        queue
    }

    /// Whether an emergency stop was asked for since the last call.
    pub fn take_emergency(&mut self) -> (r: bool)
        ensures
            r == old(self)@.emergency,
            !final(self)@.emergency,
            final(self)@.pending == old(self)@.pending,
    {
        let r = self.emergency;
        self.emergency = false;
        r
    }
}

/// What the worker does with a request that it takes from the queue.
#[derive(Clone, Copy, Debug, PartialEq, Eq, Structural)]
pub enum Triage {
    Run,
    Refuse(IntakeError),
}

pub open spec fn triage_spec(action: Seq<char>, cancelled: bool, now_ms: u64, deadline_ms: u64) -> Triage {
    if cancelled && action != "estop"@ {
        Triage::Refuse(IntakeError::Emergency)
    } else if now_ms > deadline_ms {
        Triage::Refuse(IntakeError::Expired)
    } else {
        Triage::Run
    }
}

/// Decides whether the worker runs a request: once the emergency stop has
/// been engaged in this pass, only `estop` itself runs, and a request whose
/// deadline has passed is refused.
pub fn triage(action: &str, cancelled: bool, now_ms: u64, deadline_ms: u64) -> (t: Triage)
    ensures
        t == triage_spec(action@, cancelled, now_ms, deadline_ms),
{
    let a = chars_of(action);
    if cancelled && !chars_eq(&a, "estop") {
        Triage::Refuse(IntakeError::Emergency)
    } else if now_ms > deadline_ms {
        Triage::Refuse(IntakeError::Expired)
    } else {
        Triage::Run
    }
}

/// A status or configuration query is answered at once and leaves the queue
/// and the emergency flag as they were.
pub proof fn lemma_query_leaves_queue<T>(before: IntakeView<T>, action: Seq<char>, entry: Pending<T>)
    requires
        query_of(action) is Some,
    ensures
        offer_spec(before, action, entry).0 == OfferView::<T>::Query(query_of(action)->Some_0),
        offer_spec(before, action, entry).1 == before,
{
}

/// `stop` and `estop` are never refused: every waiting request is dropped
/// and handed back, the stop alone waits, and `estop` flags the emergency.
pub proof fn lemma_stop_always_taken<T>(before: IntakeView<T>, action: Seq<char>, entry: Pending<T>)
    requires
        preempts(action),
    ensures
        offer_spec(before, action, entry).0 == OfferView::<T>::Queued(before.pending),
        offer_spec(before, action, entry).1.pending == seq![entry],
        action == "estop"@ ==> offer_spec(before, action, entry).1.emergency,
{
    reveal_strlit("status");
    reveal_strlit("config");
    reveal_strlit("stop");
    reveal_strlit("estop");
    assert("stop"@.len() != "status"@.len() && "stop"@.len() != "config"@.len());
    assert("estop"@.len() != "status"@.len() && "estop"@.len() != "config"@.len());
    assert(query_of(action) is None);
}

/// A refused request changes nothing; a request is refused only when
/// `PENDING_LIMIT` requests already wait.
pub proof fn lemma_busy_changes_nothing<T>(before: IntakeView<T>, action: Seq<char>, entry: Pending<T>)
    ensures
        offer_spec(before, action, entry).0 is Busy ==> offer_spec(before, action, entry).1 == before
            && before.pending.len() >= PENDING_LIMIT,
{
}

/// The queue never holds more than `PENDING_LIMIT` requests.
pub proof fn lemma_pending_bounded<T>(before: IntakeView<T>, action: Seq<char>, entry: Pending<T>)
    requires
        before.pending.len() <= PENDING_LIMIT,
    ensures
        offer_spec(before, action, entry).1.pending.len() <= PENDING_LIMIT,
{
}

/// Once the emergency stop is engaged in a pass, nothing but `estop` runs;
/// and nothing runs after its deadline.
pub proof fn lemma_emergency_cancels_others(action: Seq<char>, cancelled: bool, now_ms: u64, deadline_ms: u64)
    ensures
        cancelled && action != "estop"@ ==> triage_spec(action, cancelled, now_ms, deadline_ms)
            == Triage::Refuse(IntakeError::Emergency),
        triage_spec(action, cancelled, now_ms, deadline_ms) == Triage::Run ==> now_ms <= deadline_ms,
{
}

/// The status log after a line is added: once it holds `STATUS_LOG_LIMIT`
/// lines, the oldest goes.
pub open spec fn logged(log: Seq<Seq<char>>, line: Seq<char>) -> Seq<Seq<char>> {
    if log.len() >= STATUS_LOG_LIMIT {
        log.drop_first().push(line)
    } else {
        log.push(line)
    }
}

/// Adds a line to the shared status log.
pub fn log(logs: &mut Vec<String>, line: String)
    ensures
        crate::text::views(final(logs)@) == logged(crate::text::views(old(logs)@), line@),
{
    let ghost before = crate::text::views(logs@);
    if logs.len() >= STATUS_LOG_LIMIT {
        logs.remove(0);
        assert(crate::text::views(logs@) =~= before.drop_first());
    }
    let ghost mid = crate::text::views(logs@);
    logs.push(line);
    assert(crate::text::views(logs@) =~= mid.push(line@));
}

} // verus!
