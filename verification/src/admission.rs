//! The admission gate: at most one TCP client is bridged to the serial device
//! at a time, and every further connection only receives a fixed rejection
//! line before it is dropped.

use vstd::prelude::*;

verus! {

/// What the accept loop does with a freshly accepted connection.
#[derive(Clone, Copy, Debug, PartialEq, Eq, Structural)]
pub enum Admission {
    /// The connection becomes the active session and is bridged to the device.
    Admitted,
    /// The connection receives the rejection line, and nothing is forwarded
    /// for it in either direction.
    Rejected,
}

/// The admission decision as a function of the session count alone: admit
/// exactly when no session is active.
pub open spec fn spec_decision(sessions: nat) -> Admission {
    if sessions == 0 {
        Admission::Admitted
    } else {
        Admission::Rejected
    }
}

/// The single shared slot that counts the active sessions.
///
/// The accept loop never hands the slot back: once a client has been admitted,
/// the count stays at one for the life of the process, so no later client is
/// ever admitted, not even after the first one disconnects.
pub struct SessionSlot {
    sessions: u8,
}

impl SessionSlot {
    /// How many sessions are active.
    pub closed spec fn session_count(self) -> nat {
        self.sessions as nat
    }

    /// The count is always zero or one.
    pub open spec fn inv(self) -> bool {
        self.session_count() <= 1
    }

    /// No session is active, so the next connection may be admitted.
    pub open spec fn is_free(self) -> bool {
        self.session_count() == 0
    }

    /// A fresh slot with no active session.
    pub fn new() -> (s: Self)
        ensures
            s.is_free(),
            s.inv(),
    {
        SessionSlot { sessions: 0 }
    }

    /// The decision for one accepted connection: admit exactly when no session
    /// is active, and record the admission at once, before any further work,
    /// so that a rapid second connection is still rejected.
    pub fn decide(&mut self) -> (d: Admission)
        requires
            old(self).inv(),
        ensures
            final(self).inv(),
            d == spec_decision(old(self).session_count()),
            old(self).is_free() ==> final(self).session_count() == old(self).session_count()
                + 1,
            !old(self).is_free() ==> *final(self) == *old(self),
    {
        if self.sessions == 0 {
            self.sessions = self.sessions + 1;
            Admission::Admitted
        } else {
            Admission::Rejected
        }
    }
}

/// The exact line a rejected client receives, and the only thing it receives.
pub fn rejection_message() -> (m: &'static str)
    ensures
        m@ == "only one client per serial port"@,
{
    "only one client per serial port"
}

/// The session count after `n` connection attempts on a slot that started
/// free, with no attempt ever handing the slot back.
pub open spec fn sessions_after(n: nat) -> nat
    decreases n,
{
    if n == 0 {
        0
    } else if spec_decision(sessions_after((n - 1) as nat)) == Admission::Admitted {
        sessions_after((n - 1) as nat) + 1
    } else {
        sessions_after((n - 1) as nat)
    }
}

/// The decision the `k`-th connection attempt receives, counting from zero.
pub open spec fn decision_at(k: nat) -> Admission {
    spec_decision(sessions_after(k))
}

/// At most one session is ever admitted: the very first connection attempt
/// is, and every later one is rejected, so at most one session is in the
/// admitted state at any instant.
pub proof fn lemma_at_most_one_admission(k: nat)
    ensures
        sessions_after(k) <= 1,
        decision_at(0) == Admission::Admitted,
        k >= 1 ==> decision_at(k) == Admission::Rejected,
    decreases k,
{
    if k > 0 {
        lemma_at_most_one_admission((k - 1) as nat);
    }
}

} // verus!
