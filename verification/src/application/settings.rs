//! Bringing the boards' parameters in line with the machine profile: one
//! parameter at a time, each confirmed by the board's read-back before the
//! next goes out. What a parameter is, how it is written and how its reply is
//! matched belong to the board protocols; this is the order and the waiting.
use vstd::prelude::*;
use vstd::string::*;

verus! {

/// How long the board may take to confirm a parameter, in milliseconds.
pub const CONFIRM_MS: u64 = 1000;

/// Why the configuration failed.
#[derive(Clone, Copy, Debug, PartialEq, Eq, Structural)]
pub enum SettingsError {
    /// The board did not confirm the parameter in time.
    NoReply,
    /// The board read back another value than was sent.
    Mismatch,
}

pub open spec fn no_reply_message() -> Seq<char> {
    "設定の反映応答がありません。接続とFWを確認して再適用してください"@
}

/// The parameters still to confirm, in order, and the progress.
pub struct Settings<T> {
    pending: Vec<T>,
    /// When the first pending parameter was sent, if it was.
    sent: Option<u64>,
    pub confirmed: usize,
    pub expected: usize,
}

/// The state as the contracts see it.
pub struct SettingsView<T> {
    pub pending: Seq<T>,
    pub sent: Option<u64>,
    pub confirmed: nat,
    pub expected: nat,
}

impl<T> View for Settings<T> {
    type V = SettingsView<T>;

    closed spec fn view(&self) -> SettingsView<T> {
        SettingsView {
            pending: self.pending@,
            sent: self.sent,
            confirmed: self.confirmed as nat,
            expected: self.expected as nat,
        }
    }
}

/// Every parameter of the plan is either confirmed or still pending.
pub open spec fn settings_wf<T>(s: SettingsView<T>) -> bool {
    s.confirmed + s.pending.len() == s.expected
}

impl<T> Settings<T> {
    /// Starts with every parameter of the plan pending, in the plan's order.
    pub fn new(plan: Vec<T>) -> (s: Self)
        ensures
            s@.pending == plan@,
            s@.sent is None,
            s@.confirmed == 0,
            s@.expected == plan@.len(),
            settings_wf(s@),
    {
        let expected = plan.len();
        Settings { pending: plan, sent: None, confirmed: 0, expected }
    }

    /// Whether every parameter is confirmed.
    pub fn ready(&self) -> (b: bool)
        ensures
            b == (self@.pending.len() == 0),
    {
        self.pending.len() == 0
    }

    /// The parameter to send or being confirmed.
    pub fn front(&self) -> (r: Option<&T>)
        ensures
            r == (if self@.pending.len() > 0 {
                Some(&self@.pending[0])
            } else {
                None
            }),
    {
        if self.pending.len() > 0 {
            Some(&self.pending[0])
        } else {
            None
        }
    }

    /// A pass: fails when the parameter sent has waited longer than
    /// `CONFIRM_MS`; otherwise returns whether to send the first pending
    /// parameter now (none is in flight).
    pub fn poll_command(&mut self, now: u64) -> (r: Result<bool, SettingsError>)
        ensures
            match old(self)@.sent {
                Some(t) => if now > t && now - t > CONFIRM_MS {
                    r == Err::<bool, SettingsError>(SettingsError::NoReply) && final(self)@ == old(self)@
                } else {
                    r == Ok::<bool, SettingsError>(false) && final(self)@ == old(self)@
                },
                None => if old(self)@.pending.len() > 0 {
                    r == Ok::<bool, SettingsError>(true) && final(self)@ == (SettingsView {
                        sent: Some(now),
                        ..old(self)@
                    })
                } else {
                    r == Ok::<bool, SettingsError>(false) && final(self)@ == old(self)@
                },
            },
    {
        match self.sent {
            Some(t) => {
                if now > t && now - t > CONFIRM_MS {
                    Err(SettingsError::NoReply)
                } else {
                    Ok(false)
                }
            },
            None => {
                if self.pending.len() > 0 {
                    self.sent = Some(now);
                    Ok(true)
                } else {
                    Ok(false)
                }
            },
        }
    }

    /// A reply came: `for_front` says that it answers the first pending
    /// parameter, and `agrees` that its value agrees with what was sent.
    /// A reply to a parameter not yet sent, or to another one, is ignored;
    /// an agreeing reply confirms the parameter and lets the next go out.
    pub fn receive(&mut self, for_front: bool, agrees: bool) -> (r: Result<(), SettingsError>)
        requires
            settings_wf(old(self)@),
        ensures
            settings_wf(final(self)@),
            if old(self)@.pending.len() == 0 || old(self)@.sent is None || !for_front {
                r is Ok && final(self)@ == old(self)@
            } else if !agrees {
                r == Err::<(), SettingsError>(SettingsError::Mismatch) && final(self)@ == old(self)@
            } else {
                r is Ok && final(self)@ == (SettingsView {
                    pending: old(self)@.pending.drop_first(),
                    sent: None,
                    confirmed: old(self)@.confirmed + 1,
                    expected: old(self)@.expected,
                })
            },
    {
        if self.pending.len() == 0 || self.sent.is_none() || !for_front {
            return Ok(());
        }
        if !agrees {
            return Err(SettingsError::Mismatch);
        }
        self.pending.remove(0);
        self.sent = None;
        self.confirmed = self.confirmed + 1;
        Ok(())
    }
}

impl SettingsError {
    /// The message for a missing reply; a mismatch is reported with the
    /// parameter and both values by the board protocol.
    pub fn no_reply_text() -> (t: String)
        ensures
            t@ == no_reply_message(),
    {
        String::from_str("設定の反映応答がありません。接続とFWを確認して再適用してください")
    }
}

/// The configuration is ready exactly when every planned parameter was
/// confirmed.
pub proof fn lemma_ready_means_all_confirmed<T>(s: SettingsView<T>)
    requires
        settings_wf(s),
    ensures
        (s.pending.len() == 0) <==> (s.confirmed == s.expected),
{
}

} // verus!
