//! The jitter buffer for world samples that arrive on their own.
//!
//! It works as the buffer for status messages does, on packets that each
//! hold a world and nothing else.

use crate::clock::{instant_now, micros_since};
use crate::sampling::{
    buffer_event, latest_world, lemma_single_sample_is_held, newest_sample, read_samples,
    sample_views, sampled_world,
};
use crate::sync::{BufferEvent, ClockSync, FilterConfig};
use crate::telemetry::{remap_world_state, remapped_world, WorldState, WorldStateView};
use crate::timeline::{
    descending, insert_ordered, inserted, is_fresh, lemma_inserted_descending,
    lemma_leading_unique, lemma_purged_descending, lemma_purged_fresh, purge_stale, purged,
    stamps, viewed,
};
use std::collections::VecDeque;
use std::time::Instant;
use vstd::prelude::*;

verus! {

/// What a `WorldStateFilter` holds: the samples, newest first, each with its
/// local timestamp; the clock estimate, once a first packet has come; and the
/// tunable times.
pub struct WorldStateFilterView {
    pub history: Seq<(i128, WorldStateView)>,
    pub sync: Option<ClockSync>,
    pub config: FilterConfig,
}

impl WorldStateFilterView {
    /// The buffer before any packet.
    pub open spec fn fresh(config: FilterConfig) -> WorldStateFilterView {
        WorldStateFilterView { history: Seq::empty(), sync: None, config }
    }

    /// Whether the local timestamps never rise from front to back.
    pub open spec fn ordered(self) -> bool {
        descending(stamps(self.history))
    }

    /// The clock estimate with which a packet is placed that arrives at local
    /// time `now` with the sender timestamp `sender_ts`.
    pub open spec fn sync_at(self, now: u64, sender_ts: u64) -> ClockSync {
        (match self.sync {
            Some(s) => s,
            None => ClockSync::started(now, sender_ts, self.config),
        }).adapted(now, self.config)
    }

    /// The buffer after the sample `packet` has arrived at local time `now`.
    pub open spec fn pushed(self, now: u64, packet: WorldStateView) -> WorldStateFilterView {
        let sync = self.sync_at(now, packet.timestamp);
        WorldStateFilterView {
            history: purged(
                inserted(
                    self.history,
                    sync.local_timestamp(packet.timestamp),
                    remapped_world(packet),
                ),
                now,
                self.config.retention_window,
            ),
            sync: Some(sync),
            config: self.config,
        }
    }

    /// The buffer after the samples of `arrivals` have come, one after the
    /// other, each at its own local time.
    pub open spec fn pushed_all(self, arrivals: Seq<(u64, WorldStateView)>) -> WorldStateFilterView
        decreases arrivals.len(),
    {
        if arrivals.len() == 0 {
            self
        } else {
            self.pushed_all(arrivals.drop_last()).pushed(arrivals.last().0, arrivals.last().1)
        }
    }

    /// The world read at local time `now`: blended from the samples around
    /// `now` where `filter` is set, else the newest sample as it is.
    pub open spec fn world_at(self, now: u64, filter: bool) -> WorldStateView {
        if filter {
            sampled_world(self.history, now)
        } else {
            latest_world(self.history)
        }
    }

    /// What a read at local time `now` records of the buffer's health.
    pub open spec fn event_at(self, now: u64, filter: bool) -> BufferEvent {
        if filter {
            buffer_event(self.history, now)
        } else {
            BufferEvent::Idle
        }
    }

    /// The buffer after a read at local time `now`.
    pub open spec fn read_at(self, now: u64, filter: bool) -> WorldStateFilterView {
        WorldStateFilterView {
            sync: match self.sync {
                Some(s) => Some(s.after(self.event_at(now, filter))),
                None => None,
            },
            ..self
        }
    }
}

/// A sample pushed into an ordered history leaves an ordered history.
pub proof fn lemma_world_push_keeps_order(m: WorldStateFilterView, now: u64, packet: WorldStateView)
    requires
        m.ordered(),
    ensures
        m.pushed(now, packet).ordered(),
{
    let ts = m.sync_at(now, packet.timestamp).local_timestamp(packet.timestamp);
    lemma_inserted_descending(m.history, ts, remapped_world(packet));
    lemma_purged_descending(
        inserted(m.history, ts, remapped_world(packet)),
        now,
        m.config.retention_window,
    );
}

/// Whatever samples arrive, at whatever times and in whatever order, the
/// history of a buffer that started empty is ordered after each of them.
pub proof fn lemma_world_history_stays_ordered(
    config: FilterConfig,
    arrivals: Seq<(u64, WorldStateView)>,
)
    ensures
        WorldStateFilterView::fresh(config).pushed_all(arrivals).ordered(),
    decreases arrivals.len(),
{
    if arrivals.len() > 0 {
        lemma_world_history_stays_ordered(config, arrivals.drop_last());
        lemma_world_push_keeps_order(
            WorldStateFilterView::fresh(config).pushed_all(arrivals.drop_last()),
            arrivals.last().0,
            arrivals.last().1,
        );
    }
}

/// After a sample has arrived at local time `now`, every entry of the
/// history is within the retention window of `now`.
pub proof fn lemma_world_push_leaves_only_fresh(
    m: WorldStateFilterView,
    now: u64,
    packet: WorldStateView,
    i: int,
)
    requires
        0 <= i < m.pushed(now, packet).history.len(),
    ensures
        now <= m.pushed(now, packet).history[i].0 + m.config.retention_window,
{
    let ts = m.sync_at(now, packet.timestamp).local_timestamp(packet.timestamp);
    lemma_purged_fresh(
        inserted(m.history, ts, remapped_world(packet)),
        now,
        m.config.retention_window,
        i,
    );
}

/// A read changes nothing but the health sample: the history, the offset and
/// the time of the next adaptation are as they were.
pub proof fn lemma_world_read_keeps_offset(m: WorldStateFilterView, now: u64, filter: bool)
    ensures
        m.read_at(now, filter).history == m.history,
        m.read_at(now, filter).config == m.config,
        m.read_at(now, filter).sync is Some <==> m.sync is Some,
        m.sync is Some ==> m.read_at(now, filter).sync->0.offset == m.sync->0.offset
            && m.read_at(now, filter).sync->0.scheduled_time == m.sync->0.scheduled_time,
{
}

/// The first sample of a buffer is placed at the local time of its arrival,
/// and a read at that time or later, with no other packet in between, gives
/// it back in the display convention: nothing is blended.
pub proof fn lemma_first_sample_is_read_back(
    config: FilterConfig,
    arrival: u64,
    packet: WorldStateView,
    now: u64,
)
    requires
        i64::MIN <= arrival - packet.timestamp <= i64::MAX,
        arrival <= now,
    ensures
        WorldStateFilterView::fresh(config).pushed(arrival, packet).world_at(now, true)
            == remapped_world(packet),
{
    let m = WorldStateFilterView::fresh(config);
    let sync = m.sync_at(arrival, packet.timestamp);
    assert(sync.local_timestamp(packet.timestamp) == arrival);
    let one = inserted(m.history, arrival as i128, remapped_world(packet));
    assert(stamps(m.history).len() == 0);
    assert(one =~= seq![(arrival as i128, remapped_world(packet))]);
    assert(stamps(one)[0] == arrival);
    assert(is_fresh(arrival, config.retention_window)(stamps(one)[0]));
    lemma_leading_unique(stamps(one), is_fresh(arrival, config.retention_window), 1);
    assert(purged(one, arrival, config.retention_window) =~= one);
    lemma_single_sample_is_held(arrival as i128, remapped_world(packet), now);
}

/// The jitter buffer for world samples.
#[derive(Debug)]
pub struct WorldStateFilter {
    /// The samples of the retention window with their local timestamps,
    /// newest first.
    history: VecDeque<(i128, WorldState)>,
    /// The reading of the clock from which local time counts.
    time_reference: Instant,
    /// The clock estimate, once a first packet has come.
    sync: Option<ClockSync>,
    /// The tunable times.
    config: FilterConfig,
}

impl View for WorldStateFilter {
    type V = WorldStateFilterView;

    closed spec fn view(&self) -> WorldStateFilterView {
        WorldStateFilterView {
            history: viewed(self.history@),
            sync: self.sync,
            config: self.config,
        }
    }
}

impl Default for WorldStateFilter {
    fn default() -> (r: WorldStateFilter)
        ensures
            r@ == WorldStateFilterView::fresh(crate::sync::default_config()),
    {
        WorldStateFilter::new(FilterConfig::default())
    }
}

impl WorldStateFilter {
    /// An empty buffer whose local clock starts now.
    pub fn new(config: FilterConfig) -> (r: WorldStateFilter)
        ensures
            r@ == WorldStateFilterView::fresh(config),
            r@.ordered(),
    {
        let r = WorldStateFilter {
            history: VecDeque::new(),
            time_reference: instant_now(),
            sync: None,
            config,
        };
        assert(viewed(r.history@) =~= Seq::<(i128, WorldStateView)>::empty());
        r
    }

    /// The local time: the microseconds since the buffer was made.
    pub fn local_time(&self) -> (r: u64) {
        micros_since(&self.time_reference)
    }

    /// The clock estimate, once a first packet has come.
    pub fn clock_sync(&self) -> (r: Option<ClockSync>)
        ensures
            r == self@.sync,
    {
        self.sync
    }

    /// The local timestamps of the history, newest first.
    pub fn history_timestamps(&self) -> (r: Vec<i128>)
        ensures
            r@ == stamps(self@.history),
    {
        let mut out: Vec<i128> = Vec::new();
        let n = self.history.len();
        let mut i: usize = 0;
        while i < n
            invariant
                i <= n,
                n == self.history@.len(),
                out@ == stamps(self@.history).take(i as int),
            decreases n - i,
        {
            out.push(self.history[i].0);
            assert(out@ =~= stamps(self@.history).take(i as int + 1));
            i += 1;
        }
        assert(out@ =~= stamps(self@.history));
        out
    }

    /// Takes in a sample at the present local time.
    pub fn push_packet(&mut self, packet: WorldState)
        ensures
            exists|now: u64| final(self)@ == old(self)@.pushed(now, packet@),
            old(self)@.ordered() ==> final(self)@.ordered(),
    {
        let now = self.local_time();
        self.push_packet_at(now, packet);
    }

    /// Takes in a sample that arrived at local time `now`.
    ///
    /// The history stays ordered, and nothing is left in it that at `now`
    /// has outlived the retention window.
    pub fn push_packet_at(&mut self, now: u64, packet: WorldState)
        ensures
            final(self)@ == old(self)@.pushed(now, packet@),
            old(self)@.ordered() ==> final(self)@.ordered(),
            forall|i: int|
                0 <= i < final(self)@.history.len() ==> now <= (#[trigger] final(self)@.history[i]).0
                    + old(self)@.config.retention_window,
    {
        proof {
            if self@.ordered() {
                lemma_world_push_keeps_order(self@, now, packet@);
            }
            assert forall|i: int| 0 <= i < self@.pushed(now, packet@).history.len() implies now <= (
            #[trigger] self@.pushed(now, packet@).history[i]).0 + self@.config.retention_window by {
                lemma_world_push_leaves_only_fresh(self@, now, packet@, i);
            }
        }
        let mut packet = packet;
        let mut sync = match self.sync {
            Some(s) => s,
            None => ClockSync::start(now, packet.timestamp, &self.config),
        };
        sync.adapt(now, &self.config);
        self.sync = Some(sync);
        remap_world_state(&mut packet);
        let ts = sync.to_local(packet.timestamp);
        insert_ordered(&mut self.history, ts, packet);
        purge_stale(&mut self.history, now, self.config.retention_window);
    }

    /// The samples of the history, newest first.
    fn samples(&self) -> (r: Vec<(i128, &WorldState)>)
        ensures
            sample_views(r@) == self@.history,
    {
        let mut out: Vec<(i128, &WorldState)> = Vec::new();
        let n = self.history.len();
        let mut i: usize = 0;
        while i < n
            invariant
                i <= n,
                n == self.history@.len(),
                sample_views(out@) == viewed(self.history@).take(i as int),
            decreases n - i,
        {
            let entry = &self.history[i];
            let ghost before = out@;
            out.push((entry.0, &entry.1));
            assert(sample_views(out@) =~= sample_views(before) + seq![(entry.0, entry.1@)]);
            assert(sample_views(out@) =~= viewed(self.history@).take(i as int + 1));
            i += 1;
        }
        assert(viewed(self.history@).take(n as int) =~= viewed(self.history@));
        out
    }

    /// The world at the present local time.
    pub fn current_world_state(&mut self, filter: bool) -> (r: WorldState)
        ensures
            exists|now: u64|
                r@ == old(self)@.world_at(now, filter) && final(self)@ == old(self)@.read_at(
                    now,
                    filter,
                ),
    {
        let now = self.local_time();
        self.current_world_state_at(now, filter)
    }

    /// The world at local time `now`.
    ///
    /// With `filter` set the world is blended from the two samples around
    /// `now`, and the read is recorded in the health sample. Without it the
    /// newest sample is given as it is and nothing is recorded.
    pub fn current_world_state_at(&mut self, now: u64, filter: bool) -> (r: WorldState)
        ensures
            r@ == old(self)@.world_at(now, filter),
            final(self)@ == old(self)@.read_at(now, filter),
    {
        let samples = self.samples();
        let (world, event) = if filter {
            read_samples(&samples, now)
        } else {
            (newest_sample(&samples), BufferEvent::Idle)
        };
        match self.sync {
            Some(s) => {
                let mut s = s;
                s.record(event);
                self.sync = Some(s);
            },
            None => {},
        }
        world
    }
}

} // verus!
