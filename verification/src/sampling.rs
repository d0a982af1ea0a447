//! Reading a history of world samples at a local instant.
//!
//! The samples are given newest first. The read looks for the newest sample
//! that lies in the past, `prev`, and the sample just before it in the list,
//! `next`, which then lies in the future.

use crate::fixed::{clamp_i64, clamp_to_i64, clamp_u64};
use crate::interpolation::{blended_world, interpolate_world_state};
use crate::sync::BufferEvent;
use crate::telemetry::{empty_world, WorldState, WorldStateView};
use crate::timeline::{is_newer, leading, lemma_leading_unique, stamps};
use vstd::prelude::*;

verus! {

/// World samples with their local timestamps.
pub open spec fn sample_views(samples: Seq<(i128, &WorldState)>) -> Seq<(i128, WorldStateView)> {
    samples.map_values(|e: (i128, &WorldState)| (e.0, e.1@))
}

/// The number of leading samples that at local time `now` lie in the
/// future: the position of `prev`, if there is one.
pub open spec fn future_count(samples: Seq<(i128, WorldStateView)>, now: u64) -> int {
    leading(stamps(samples), is_newer(now as i128)) as int
}

/// The time from `earlier` to `later`, as far as 64 bits count; none where
/// `later` is not the later one.
pub open spec fn span(later: int, earlier: int) -> int {
    clamp_u64(later - earlier) as int
}

/// The world at local time `now`.
///
/// With a sample on either side the world is interpolated between the two.
/// With every sample in the past it is extrapolated from the two newest, or
/// is the only sample where there is just one. With no sample in the past it
/// is empty.
pub open spec fn sampled_world(samples: Seq<(i128, WorldStateView)>, now: u64) -> WorldStateView {
    let k = future_count(samples, now);
    if k >= samples.len() {
        empty_world()
    } else if k > 0 {
        blended_world(
            samples[k].1,
            samples[k - 1].1,
            span(now as int, samples[k].0 as int),
            span(samples[k - 1].0 as int, samples[k].0 as int),
        )
    } else if samples.len() >= 2 {
        blended_world(
            samples[1].1,
            samples[0].1,
            span(now as int, samples[1].0 as int),
            span(samples[0].0 as int, samples[1].0 as int),
        )
    } else {
        samples[0].1
    }
}

/// What the read at local time `now` tells about the health of the buffer:
/// the margin from `now` to the newest sample, as a margin where the read
/// lay between two samples and as an underrun where it lay past the newest.
pub open spec fn buffer_event(samples: Seq<(i128, WorldStateView)>, now: u64) -> BufferEvent {
    let k = future_count(samples, now);
    if k >= samples.len() {
        BufferEvent::Idle
    } else if k > 0 {
        BufferEvent::Margin(clamp_i64(samples[0].0 - now))
    } else {
        BufferEvent::Underrun(clamp_i64(samples[0].0 - now))
    }
}

/// The newest world, or the empty one where there is no sample.
pub open spec fn latest_world(samples: Seq<(i128, WorldStateView)>) -> WorldStateView {
    if samples.len() > 0 {
        samples[0].1
    } else {
        empty_world()
    }
}

/// A single sample that lies in the past is read as it is.
pub proof fn lemma_single_sample_is_held(ts: i128, world: WorldStateView, now: u64)
    requires
        ts <= now,
    ensures
        sampled_world(seq![(ts, world)], now) == world,
        buffer_event(seq![(ts, world)], now) == BufferEvent::Underrun(clamp_i64(ts - now)),
{
    let s = seq![(ts, world)];
    assert(stamps(s)[0] == ts);
    lemma_leading_unique(stamps(s), is_newer(now as i128), 0);
}

/// The time from `earlier` to `later`, as far as 64 bits count.
pub fn span_between(later: i128, earlier: i128) -> (r: u64)
    ensures
        r == span(later as int, earlier as int),
{
    if later <= earlier {
        0
    } else if earlier >= 0 || later < 0 {
        crate::fixed::clamp_to_u64(later - earlier)
    } else if later > u64::MAX as i128 || earlier < -(u64::MAX as i128) {
        u64::MAX
    } else {
        crate::fixed::clamp_to_u64(later - earlier)
    }
}

/// The time from local time `now` to `ts`, negative where `ts` lies in the
/// past, as far as 64 bits count.
pub fn margin_to(ts: i128, now: u64) -> (r: i64)
    ensures
        r == clamp_i64(ts - now),
{
    if ts > i64::MAX as i128 + u64::MAX as i128 {
        i64::MAX
    } else if ts < i64::MIN as i128 {
        i64::MIN
    } else {
        clamp_to_i64(ts - now as i128)
    }
}

/// Reads the samples at local time `now`.
pub fn read_samples(samples: &Vec<(i128, &WorldState)>, now: u64) -> (r: (WorldState, BufferEvent))
    ensures
        r.0@ == sampled_world(sample_views(samples@), now),
        r.1 == buffer_event(sample_views(samples@), now),
{
    let n = samples.len();
    let mut k: usize = 0;
    loop
        invariant_except_break
            k <= n,
        invariant
            n == samples@.len(),
            forall|j: int| 0 <= j < k ==> samples@[j].0 > now,
        ensures
            k <= n,
            k < n ==> samples@[k as int].0 <= now,
        decreases n - k,
    {
        if k >= n {
            break ;
        }
        if samples[k].0 <= now as i128 {
            break ;
        }
        k += 1;
    }
    proof {
        let s = stamps(sample_views(samples@));
        assert forall|j: int| 0 <= j < k implies is_newer(now as i128)(#[trigger] s[j]) by {}
        lemma_leading_unique(s, is_newer(now as i128), k as int);
    }
    if k >= n {
        (WorldState::empty(), BufferEvent::Idle)
    } else if k > 0 {
        let (prev_time, prev) = samples[k];
        let (next_time, next) = samples[k - 1];
        let margin = margin_to(samples[0].0, now);
        let elapsed = span_between(now as i128, prev_time);
        let whole = span_between(next_time, prev_time);
        (interpolate_world_state(elapsed, 0, prev, whole, next), BufferEvent::Margin(margin))
    } else {
        let (newest_time, newest) = samples[0];
        let margin = margin_to(newest_time, now);
        let world = if n >= 2 {
            let (older_time, older) = samples[1];
            let elapsed = span_between(now as i128, older_time);
            let whole = span_between(newest_time, older_time);
            interpolate_world_state(elapsed, 0, older, whole, newest)
        } else {
            newest.clone()
        };
        (world, BufferEvent::Underrun(margin))
    }
}

/// The newest sample, or an empty world where there is none.
pub fn newest_sample(samples: &Vec<(i128, &WorldState)>) -> (r: WorldState)
    ensures
        r@ == latest_world(sample_views(samples@)),
{
    if samples.len() > 0 {
        samples[0].1.clone()
    } else {
        WorldState::empty()
    }
}

} // verus!
