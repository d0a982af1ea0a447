//! What becomes of a message handed to a bounded channel, and how often an
//! overflow is worth a warning.

use crate::fixed::{clamp_to_u64, clamp_u64};
use vstd::prelude::*;

verus! {

/// The time for which warnings of an overflow are held back after one was
/// given: five seconds.
pub const WARNING_COOLDOWN: u64 = 5_000_000;

/// What became of a message that was handed to a bounded channel without
/// waiting.
#[derive(Clone, Copy, Debug, PartialEq, Eq)]
pub enum SendOutcome {
    /// The message is in the channel.
    Sent,
    /// The channel was full: the message is dropped.
    Full,
    /// The receiving side is gone.
    Closed,
}

/// Whether a task goes on after a send. It ends only when the receiving side
/// is gone; a message that found the channel full is lost, and the task goes
/// on.
pub open spec fn goes_on(outcome: SendOutcome) -> bool {
    !(outcome is Closed)
}

/// Whether a task goes on after a send.
pub fn continues_after(outcome: SendOutcome) -> (r: bool)
    ensures
        r == goes_on(outcome),
{
    match outcome {
        SendOutcome::Sent => true,
        SendOutcome::Full => true,
        SendOutcome::Closed => false,
    }
}

/// Holds warnings back so that a channel that stays full is not reported
/// with every message.
#[derive(Clone, Copy, Debug, PartialEq, Eq)]
pub struct WarnLimiter {
    /// The time up to which no warning is given.
    pub quiet_until: u64,
}

impl WarnLimiter {
    /// Whether an overflow at time `now` is worth a warning.
    pub open spec fn due(self, now: u64) -> bool {
        self.quiet_until < now
    }

    /// The limiter after an overflow at time `now`: a warning that is given
    /// starts the cooldown, one that is held back changes nothing.
    pub open spec fn after_overflow(self, now: u64) -> WarnLimiter {
        if self.due(now) {
            WarnLimiter { quiet_until: clamp_u64(now + WARNING_COOLDOWN) }
        } else {
            self
        }
    }

    /// A limiter that holds nothing back after time `now`.
    pub fn new(now: u64) -> (r: WarnLimiter)
        ensures
            r.quiet_until == now,
    {
        WarnLimiter { quiet_until: now }
    }

    /// Takes note of an overflow at time `now` and tells whether to warn.
    pub fn on_overflow(&mut self, now: u64) -> (warn: bool)
        ensures
            warn == old(self).due(now),
            *final(self) == old(self).after_overflow(now),
    {
        if self.quiet_until < now {
            self.quiet_until = clamp_to_u64(now as i128 + WARNING_COOLDOWN as i128);
            true
        } else {
            false
        }
    }
}

/// Two overflows within the cooldown give one warning.
pub proof fn lemma_one_warning_per_cooldown(limiter: WarnLimiter, now: u64, soon: u64)
    requires
        limiter.due(now),
        now <= soon <= now + WARNING_COOLDOWN,
    ensures
        !limiter.after_overflow(now).due(soon),
{
}

} // verus!
