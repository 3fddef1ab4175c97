//! The right to operate, and how long inputs and leases last. Communication,
//! outputs and the screen are not owned here; times are in milliseconds.
use vstd::prelude::*;
use vstd::string::*;
use crate::text::{chars_of, chars_eq};

verus! {

/// An input that is not renewed within this time (ms) falls back to neutral.
pub const INPUT_TTL_MS: u64 = 150;

/// A lease that is not renewed within this time (ms) expires.
pub const LEASE_TTL_MS: u64 = 30000;

/// Why a request was not authorized.
#[derive(Clone, Copy, Debug, PartialEq, Eq, Structural)]
pub enum AuthorityError {
    /// The AI holds the lease; manual operation waits (stop never does).
    Busy,
    /// The request carries no token, or not the lease's.
    Unauthorized,
}

/// The text of each refusal.
pub open spec fn authority_error_message(e: AuthorityError) -> Seq<char> {
    match e {
        AuthorityError::Busy => "AI操作中です。停止は常に操作できます"@,
        AuthorityError::Unauthorized => "claimで操作権を取得し、tokenを指定してください"@,
    }
}

impl AuthorityError {
    /// The message shown to the operator.
    pub fn message(self) -> (text: String)
        ensures
            text@ == authority_error_message(self),
    {
        match self {
            AuthorityError::Busy => String::from_str("AI操作中です。停止は常に操作できます"),
            AuthorityError::Unauthorized => String::from_str(
                "claimで操作権を取得し、tokenを指定してください",
            ),
        }
    }
}

/// The lease of an automatic operator.
pub struct Lease {
    token: String,
    contact: u64,
    input_times: Vec<Option<u64>>,
}

pub struct LeaseView {
    pub token: Seq<char>,
    /// When (ms) the lease holder last made contact.
    pub contact: u64,
    /// When (ms) each machine input was last set, if it is held.
    pub input_times: Seq<Option<u64>>,
}

impl View for Lease {
    type V = LeaseView;

    closed spec fn view(&self) -> LeaseView {
        LeaseView { token: self.token@, contact: self.contact, input_times: self.input_times@ }
    }
}

/// Who may operate: nobody holds a lease (manual operation), or an automatic
/// operator holds one.
pub struct Authority {
    lease: Option<Lease>,
}

pub open spec fn lease_view(l: Option<Lease>) -> Option<LeaseView> {
    match l {
        Some(l) => Some(l@),
        None => None,
    }
}

impl View for Authority {
    type V = Option<LeaseView>;

    closed spec fn view(&self) -> Option<LeaseView> {
        lease_view(self.lease)
    }
}

/// The outcome of a request: stop always passes; manual operation passes
/// only without a lease; otherwise the lease's token is needed, and renews it.
pub open spec fn authorize_spec(a: Option<LeaseView>, token: Option<Seq<char>>, manual: bool, stop: bool, now: u64) -> (
    Option<LeaseView>,
    Result<(), AuthorityError>,
) {
    if stop {
        (a, Ok(()))
    } else {
        match a {
            None => if manual {
                (a, Ok(()))
            } else {
                (a, Err(AuthorityError::Unauthorized))
            },
            Some(l) => if manual {
                (a, Err(AuthorityError::Busy))
            } else if token == Some(l.token) {
                (Some(LeaseView { contact: now, ..l }), Ok(()))
            } else {
                (a, Err(AuthorityError::Unauthorized))
            },
        }
    }
}

/// More than `ttl` ms passed from `since` to `now` (no time passes backwards).
pub open spec fn elapsed_over(since: u64, now: u64, ttl: u64) -> bool {
    now > since + ttl
}

/// An input set at `t` that has not been renewed by `now` is dropped.
pub open spec fn input_live(t: Option<u64>, now: u64) -> Option<u64> {
    match t {
        Some(at) => if elapsed_over(at, now, INPUT_TTL_MS) {
            None
        } else {
            t
        },
        None => None,
    }
}

impl Default for Authority {
    fn default() -> (a: Authority)
        ensures
            a@ is None,
    {
        Authority { lease: None }
    }
}

impl Authority {
    /// Whether an automatic operator holds the lease.
    pub fn active(&self) -> (b: bool)
        ensures
            b == self@ is Some,
    {
        self.lease.is_some()
    }

    /// Hands the lease to `token`, with every one of the `inputs` machine inputs neutral.
    pub fn claim(&mut self, token: String, now: u64, inputs: usize)
        ensures
            final(self)@ == Some(
                LeaseView {
                    token: token@,
                    contact: now,
                    input_times: Seq::new(inputs as nat, |i: int| None::<u64>),
                },
            ),
    {
        let times = neutral_times(inputs);
        self.lease = Some(Lease { token, contact: now, input_times: times });
    }

    /// Whether a request may go ahead; a request of the lease holder renews it.
    pub fn authorize(&mut self, token: Option<&str>, manual: bool, stop: bool, now: u64) -> (r:
        Result<(), AuthorityError>)
        ensures
            (final(self)@, r) == authorize_spec(
                old(self)@,
                match token {
                    Some(t) => Some(t@),
                    None => None,
                },
                manual,
                stop,
                now,
            ),
    {
        if stop {
            return Ok(());
        }
        match &mut self.lease {
            None => if manual {
                Ok(())
            } else {
                Err(AuthorityError::Unauthorized)
            },
            Some(lease) => {
                if manual {
                    return Err(AuthorityError::Busy);
                }
                match token {
                    Some(t) => {
                        let held = chars_of(lease.token.as_str());
                        if chars_eq(held.as_slice(), t) {
                            lease.contact = now;
                            Ok(())
                        } else {
                            Err(AuthorityError::Unauthorized)
                        }
                    },
                    None => Err(AuthorityError::Unauthorized),
                }
            },
        }
    }

    /// Gives the lease up.
    pub fn release(&mut self)
        ensures
            final(self)@ is None,
    {
        self.lease = None;
    }

    /// Whether the lease holder has been silent for longer than the lease lasts.
    pub fn expired(&self, now: u64) -> (b: bool)
        ensures
            b == (self@ matches Some(l) && elapsed_over(l.contact, now, LEASE_TTL_MS)),
    {
        match &self.lease {
            Some(lease) => now > lease.contact && now - lease.contact > LEASE_TTL_MS,
            None => false,
        }
    }

    /// Sets every machine input of the lease back to neutral; the lease stays.
    pub fn clear_input(&mut self)
        ensures
            match (old(self)@, final(self)@) {
                (Some(a), Some(b)) => b == LeaseView {
                    input_times: Seq::new(a.input_times.len(), |i: int| None::<u64>),
                    ..a
                },
                (None, None) => true,
                _ => false,
            },
    {
        if let Some(lease) = &mut self.lease {
            let n = lease.input_times.len();
            lease.input_times = neutral_times(n);
        }
    }

    /// Records that machine input `index` of the lease was set at `now`.
    pub fn set_input(&mut self, index: usize, now: u64)
        requires
            old(self)@ matches Some(l) ==> index < l.input_times.len(),
        ensures
            match (old(self)@, final(self)@) {
                (Some(a), Some(b)) => b == LeaseView {
                    input_times: a.input_times.update(index as int, Some(now)),
                    ..a
                },
                (None, None) => true,
                _ => false,
            },
    {
        if let Some(lease) = &mut self.lease {
            lease.input_times.set(index, Some(now));
        }
    }

    /// Drops the machine inputs that were not renewed in time, and returns
    /// their indices in increasing order: those inputs go back to neutral.
    pub fn expire_inputs(&mut self, now: u64) -> (dropped: Vec<usize>)
        ensures
            match (old(self)@, final(self)@) {
                (Some(a), Some(b)) => {
                    &&& b == LeaseView {
                        input_times: a.input_times.map_values(|t: Option<u64>| input_live(t, now)),
                        ..a
                    }
                    &&& forall|k: int|
                        0 <= k < dropped@.len() ==> dropped@[k] < a.input_times.len()
                            && a.input_times[dropped@[k] as int] is Some && input_live(
                            a.input_times[dropped@[k] as int],
                            now,
                        ) is None
                    &&& forall|i: int|
                        0 <= i < a.input_times.len() && a.input_times[i] is Some && input_live(
                            a.input_times[i],
                            now,
                        ) is None ==> dropped@.contains(i as usize)
                    &&& forall|k: int, m: int| 0 <= k < m < dropped@.len() ==> dropped@[k] < dropped@[m]
                },
                (None, None) => dropped@.len() == 0,
                _ => false,
            },
    {
        match &mut self.lease {
            Some(lease) => {
                let (times, dropped) = live_times(lease.input_times.as_slice(), now);
                lease.input_times = times;
                dropped
            },
            None => Vec::new(),
        }
    }
}

/// Stop is never refused, and changes nothing of the lease.
pub proof fn lemma_stop_is_unconditional(a: Option<LeaseView>, token: Option<Seq<char>>, manual: bool, now: u64)
    ensures
        authorize_spec(a, token, manual, true, now) == (a, Ok::<(), AuthorityError>(())),
{
}

/// A request of the lease holder renews the lease, and only its contact time:
/// the inputs it set keep their own times and still expire on their own.
pub proof fn lemma_renewal_keeps_inputs(l: LeaseView, now: u64)
    ensures
        authorize_spec(Some(l), Some(l.token), false, false, now) == (
            Some(LeaseView { contact: now, ..l }),
            Ok::<(), AuthorityError>(()),
        ),
{
}

/// `n` neutral inputs.
fn neutral_times(n: usize) -> (times: Vec<Option<u64>>)
    ensures
        times@ == Seq::new(n as nat, |k: int| None::<u64>),
{
    let mut times: Vec<Option<u64>> = Vec::new();
    let mut i: usize = 0;
    while i < n
        invariant
            i <= n,
            times@ == Seq::new(i as nat, |k: int| None::<u64>),
        decreases n - i,
    {
        times.push(None);
        i = i + 1;
        assert(times@ =~= Seq::new(i as nat, |k: int| None::<u64>));
    }
    times
}

/// The inputs still held at `now`, and the indices of those dropped, in increasing order.
fn live_times(before: &[Option<u64>], now: u64) -> (r: (Vec<Option<u64>>, Vec<usize>))
    ensures
        r.0@ == before@.map_values(|t: Option<u64>| input_live(t, now)),
        forall|k: int|
            0 <= k < r.1@.len() ==> r.1@[k] < before@.len() && before@[r.1@[k] as int] is Some
                && input_live(before@[r.1@[k] as int], now) is None,
        forall|i: int|
            0 <= i < before@.len() && before@[i] is Some && input_live(before@[i], now) is None
                ==> r.1@.contains(i as usize),
        forall|k: int, m: int| 0 <= k < m < r.1@.len() ==> r.1@[k] < r.1@[m],
{
    let mut times: Vec<Option<u64>> = Vec::new();
    let mut dropped: Vec<usize> = Vec::new();
    let n = before.len();
    let mut i: usize = 0;
    while i < n
        invariant
            n == before@.len(),
            i <= n,
            times@ == before@.take(i as int).map_values(|t: Option<u64>| input_live(t, now)),
            forall|k: int|
                0 <= k < dropped@.len() ==> dropped@[k] < i && before@[dropped@[k] as int] is Some
                    && input_live(before@[dropped@[k] as int], now) is None,
            forall|k: int|
                0 <= k < i && before@[k] is Some && input_live(before@[k], now) is None
                    ==> dropped@.contains(k as usize),
            forall|k: int, m: int| 0 <= k < m < dropped@.len() ==> dropped@[k] < dropped@[m],
        decreases n - i,
    {
        let t = before[i];
        let mut kept = t;
        if let Some(at) = t {
            if now > at && now - at > INPUT_TTL_MS {
                kept = None;
                let ghost old_dropped = dropped@;
                dropped.push(i);
                assert forall|k: int|
                    0 <= k < i + 1 && before@[k] is Some && input_live(before@[k], now)
                        is None implies dropped@.contains(k as usize) by {
                    if k < i {
                        let w = choose|w: int| 0 <= w < old_dropped.len() && old_dropped[w] == k as usize;
                        assert(dropped@[w] == k as usize);
                    } else {
                        assert(dropped@[dropped@.len() - 1] == i);
                    }
                }
            }
        }
        assert(kept == input_live(before@[i as int], now));
        times.push(kept);
        i = i + 1;
        assert(times@ =~= before@.take(i as int).map_values(|t: Option<u64>| input_live(t, now)));
    }
    assert(before@.take(n as int) == before@);
    (times, dropped)
}

} // verus!
