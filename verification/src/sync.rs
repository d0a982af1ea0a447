//! The estimate of the offset between a sender's clock and the local clock,
//! and the record of buffer health that drives it.
//!
//! All times are whole microseconds. The local clock counts from the creation
//! of the buffer. The health sample is gathered over a tracking period and
//! then emptied. The controller is a plain integral step: where the smallest
//! margin of the period was too generous, or reads ran dry too often, the
//! offset moves by the difference between the margin aimed at and the
//! smallest margin seen.

use crate::fixed::{clamp_i64, clamp_to_i64, clamp_to_u64, clamp_u32, clamp_u64};
use vstd::prelude::*;

verus! {

/// How long an entry stays in the history: one second.
pub const RETENTION_WINDOW: u64 = 1_000_000;

/// The time between two adaptations of the offset: ten seconds.
pub const HEALTH_TRACKING_PERIOD: u64 = 10_000_000;

/// The time from the first packet to the first adaptation: one second.
pub const WARM_UP_PERIOD: u64 = 1_000_000;

/// The margin that reads should keep to the newest sample: ten milliseconds.
pub const TARGET_BUFFER_TIME: u64 = 10_000;

/// The time over which one dry read is tolerated: five seconds.
pub const STUTTER_ALLOWANCE_PERIOD: u64 = 5_000_000;

/// The tunable times of a buffer.
#[derive(Clone, Copy, Debug, PartialEq, Eq)]
pub struct FilterConfig {
    pub retention_window: u64,
    pub health_tracking_period: u64,
    pub warm_up_period: u64,
    pub target_buffer_time: u64,
}

/// The times a buffer has unless told otherwise.
pub open spec fn default_config() -> FilterConfig {
    FilterConfig {
        retention_window: RETENTION_WINDOW,
        health_tracking_period: HEALTH_TRACKING_PERIOD,
        warm_up_period: WARM_UP_PERIOD,
        target_buffer_time: TARGET_BUFFER_TIME,
    }
}

impl Default for FilterConfig {
    fn default() -> (r: FilterConfig)
        ensures
            r == default_config(),
    {
        FilterConfig {
            retention_window: RETENTION_WINDOW,
            health_tracking_period: HEALTH_TRACKING_PERIOD,
            warm_up_period: WARM_UP_PERIOD,
            target_buffer_time: TARGET_BUFFER_TIME,
        }
    }
}

/// What a read tells about the health of the buffer.
#[derive(Clone, Copy, Debug, PartialEq, Eq)]
pub enum BufferEvent {
    /// No sample lay in the past: nothing to record.
    Idle,
    /// The read lay between two samples; the newest sample was this far
    /// ahead of it.
    Margin(i64),
    /// The read lay past the newest sample by the negative of this.
    Underrun(i64),
}

/// The clock offset and the health sample of the running tracking period.
#[derive(Clone, Copy, Debug, PartialEq, Eq)]
pub struct ClockSync {
    /// Added to a sender timestamp to place it on the local clock.
    pub offset: i64,
    /// The smallest margin recorded in this period, if any was.
    pub min_margin: Option<i64>,
    /// The dry reads recorded in this period.
    pub stutter_count: u32,
    /// The local time after which the offset may next be adapted.
    pub scheduled_time: u64,
}

impl ClockSync {
    /// The state after the first packet, which arrived at local time `now`
    /// with the sender timestamp `sender_ts`: the packet is placed at `now`,
    /// and the first adaptation waits for the warm-up to pass.
    pub open spec fn started(now: u64, sender_ts: u64, config: FilterConfig) -> ClockSync {
        ClockSync {
            offset: clamp_i64(now - sender_ts),
            min_margin: None,
            stutter_count: 0,
            scheduled_time: clamp_u64(now + config.warm_up_period),
        }
    }

    /// Whether at local time `now` a tracking period has come to its end: the
    /// scheduled time is past and a margin was recorded in the period. A
    /// period without any read goes on until one is recorded.
    pub open spec fn period_over(self, now: u64) -> bool {
        self.scheduled_time < now && self.min_margin is Some
    }

    /// Whether at local time `now` the offset is to be moved: the period is
    /// over, and the smallest margin of it is more than twice the target or
    /// more reads ran dry than one per allowance period.
    pub open spec fn adaptation_due(self, now: u64, config: FilterConfig) -> bool {
        &&& self.period_over(now)
        &&& (self.min_margin->0 > 2 * config.target_buffer_time || self.stutter_count
            > config.health_tracking_period / STUTTER_ALLOWANCE_PERIOD)
    }

    /// The offset after the adaptation step at local time `now`: where an
    /// adaptation is due it moves by the target margin less the smallest
    /// margin seen, else it stays.
    pub open spec fn adapted_offset(self, now: u64, config: FilterConfig) -> i64 {
        if self.adaptation_due(now, config) {
            clamp_i64(self.offset + (config.target_buffer_time - self.min_margin->0))
        } else {
            self.offset
        }
    }

    /// The state after the adaptation step at local time `now`. Where a
    /// period is over, a new one starts with an empty sample, whether the
    /// offset moves or not, and ends one tracking period after `now`. Where
    /// none is over nothing changes.
    pub open spec fn adapted(self, now: u64, config: FilterConfig) -> ClockSync {
        if self.period_over(now) {
            ClockSync {
                offset: self.adapted_offset(now, config),
                min_margin: None,
                stutter_count: 0,
                scheduled_time: clamp_u64(now + config.health_tracking_period),
            }
        } else {
            self
        }
    }

    /// The local timestamp of a packet with the sender timestamp
    /// `sender_ts`: the sum of the two, whatever its sign. A packet that was
    /// sent before the local clock began to count has a negative one.
    pub open spec fn local_timestamp(self, sender_ts: u64) -> i128 {
        (sender_ts + self.offset) as i128
    }

    /// The smallest margin once `margin` is recorded too.
    pub open spec fn lowered_margin(self, margin: i64) -> Option<i64> {
        match self.min_margin {
            Some(m) => Some(
                if margin < m {
                    margin
                } else {
                    m
                },
            ),
            None => Some(margin),
        }
    }

    /// The state once the outcome of a read is recorded.
    pub open spec fn after(self, event: BufferEvent) -> ClockSync {
        match event {
            BufferEvent::Idle => self,
            BufferEvent::Margin(m) => ClockSync { min_margin: self.lowered_margin(m), ..self },
            BufferEvent::Underrun(m) => ClockSync {
                min_margin: self.lowered_margin(m),
                stutter_count: clamp_u32(self.stutter_count + 1),
                ..self
            },
        }
    }

    /// Starts the estimate from the first packet.
    pub fn start(now: u64, sender_ts: u64, config: &FilterConfig) -> (r: ClockSync)
        ensures
            r == ClockSync::started(now, sender_ts, *config),
    {
        ClockSync {
            offset: clamp_to_i64(now as i128 - sender_ts as i128),
            min_margin: None,
            stutter_count: 0,
            scheduled_time: clamp_to_u64(now as i128 + config.warm_up_period as i128),
        }
    }

    /// Takes the adaptation step at local time `now`.
    pub fn adapt(&mut self, now: u64, config: &FilterConfig)
        ensures
            *final(self) == old(self).adapted(now, *config),
    {
        if self.scheduled_time < now {
            if let Some(min_margin) = self.min_margin {
                let target = config.target_buffer_time as i128;
                let too_generous = min_margin as i128 > 2 * target;
                let too_dry = self.stutter_count as u64 > config.health_tracking_period
                    / STUTTER_ALLOWANCE_PERIOD;
                if too_generous || too_dry {
                    self.offset = clamp_to_i64(self.offset as i128 + (target - min_margin as i128));
                }
                self.min_margin = None;
                self.stutter_count = 0;
                self.scheduled_time = clamp_to_u64(
                    now as i128 + config.health_tracking_period as i128,
                );
            }
        }
    }

    /// Places a sender timestamp on the local clock.
    pub fn to_local(&self, sender_ts: u64) -> (r: i128)
        ensures
            r == self.local_timestamp(sender_ts),
    {
        sender_ts as i128 + self.offset as i128
    }

    /// Records the outcome of a read.
    pub fn record(&mut self, event: BufferEvent)
        ensures
            *final(self) == old(self).after(event),
    {
        match event {
            BufferEvent::Idle => {},
            BufferEvent::Margin(m) => {
                self.min_margin = Some(self.lower(m));
            },
            BufferEvent::Underrun(m) => {
                self.min_margin = Some(self.lower(m));
                if self.stutter_count < u32::MAX {
                    self.stutter_count = self.stutter_count + 1;
                }
            },
        }
    }

    fn lower(&self, margin: i64) -> (r: i64)
        ensures
            Some(r) == self.lowered_margin(margin),
    {
        match self.min_margin {
            Some(m) => if margin < m {
                margin
            } else {
                m
            },
            None => margin,
        }
    }
}

/// Without a recorded margin the adaptation step changes nothing, however
/// late it is and however many reads ran dry.
pub proof fn lemma_no_adaptation_without_sample(s: ClockSync, now: u64, config: FilterConfig)
    requires
        s.min_margin is None,
    ensures
        s.adapted(now, config) == s,
{
}

/// The end of a period leaves an empty health sample behind and sets the
/// end of the next period one tracking period after `now`, whether the
/// offset moves or not.
pub proof fn lemma_period_end_resets_sample(s: ClockSync, now: u64, config: FilterConfig)
    requires
        s.period_over(now),
    ensures
        s.adapted(now, config).min_margin is None,
        s.adapted(now, config).stutter_count == 0,
        s.adapted(now, config).scheduled_time == clamp_u64(now + config.health_tracking_period),
{
}

/// The offset moves only at the end of a period in which a threshold was
/// breached.
pub proof fn lemma_offset_moves_only_when_due(s: ClockSync, now: u64, config: FilterConfig)
    requires
        !s.adaptation_due(now, config),
    ensures
        s.adapted(now, config).offset == s.offset,
{
}

/// The adaptation step taken twice at one instant does what it does when
/// taken once.
pub proof fn lemma_adaptation_idempotent(s: ClockSync, now: u64, config: FilterConfig)
    ensures
        s.adapted(now, config).adapted(now, config) == s.adapted(now, config),
{
}

/// After the end of a period the step changes nothing more until a read
/// records a margin, however late it is taken.
pub proof fn lemma_adaptation_rests_after_period_end(
    s: ClockSync,
    now: u64,
    later: u64,
    config: FilterConfig,
)
    requires
        s.period_over(now),
    ensures
        s.adapted(now, config).adapted(later, config) == s.adapted(now, config),
{
}

} // verus!
