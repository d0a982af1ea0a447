//! The jitter buffer for status messages.
//!
//! Packets arrive late, early and out of order. The buffer places each one on
//! the local clock, keeps a short history ordered by that placement, and
//! reads the world at the present instant from the two samples around it.

use crate::clock::{instant_now, micros_since};
use crate::field::{FieldGeometry, GameState, GameStateView};
use crate::sampling::{
    buffer_event, latest_world, lemma_single_sample_is_held, newest_sample, read_samples,
    sample_views, sampled_world,
};
use crate::sync::{BufferEvent, ClockSync, FilterConfig};
use crate::telemetry::{
    clone_visualizations, remap_coordinates, remapped_status, remapped_world,
    visualization_views, FieldDimensions, Status, StatusView, Visualization,
    VisualizationGroup, VisualizationView, WorldState, WorldStateView,
};
use std::collections::HashSet;
use crate::timeline::{
    descending, insert_ordered, inserted, is_fresh, is_newer, leading, lemma_inserted_descending,
    lemma_leading_unique, lemma_purge_keeps_fresh, lemma_purged_descending, lemma_purged_fresh,
    purge_stale, purged, stamps, viewed,
};
use std::collections::VecDeque;
use std::time::Instant;
use vstd::prelude::*;

verus! {

/// The world sample that a history entry carries, if it carries one.
pub open spec fn world_sample(e: (i128, StatusView)) -> Option<(i128, WorldStateView)> {
    match e.1.world_state {
        Some(w) => Some((e.0, w)),
        None => None,
    }
}

/// The name of the yellow team in the first entry, front to back, that
/// names it; no name where no entry does.
pub open spec fn first_yellow_team(h: Seq<(i128, StatusView)>) -> Seq<char>
    decreases h.len(),
{
    if h.len() == 0 {
        Seq::empty()
    } else {
        match h.first().1.yellow_team {
            Some(name) => name,
            None => first_yellow_team(h.drop_first()),
        }
    }
}

/// The name of the blue team in the first entry, front to back, that names
/// it; no name where no entry does.
pub open spec fn first_blue_team(h: Seq<(i128, StatusView)>) -> Seq<char>
    decreases h.len(),
{
    if h.len() == 0 {
        Seq::empty()
    } else {
        match h.first().1.blue_team {
            Some(name) => name,
            None => first_blue_team(h.drop_first()),
        }
    }
}

/// The field dimensions of the first entry, front to back, that reports
/// any.
pub open spec fn first_dimensions(h: Seq<(i128, StatusView)>) -> Option<FieldDimensions>
    decreases h.len(),
{
    if h.len() == 0 {
        None
    } else if h.first().1.field_geometry is Some {
        h.first().1.field_geometry
    } else {
        first_dimensions(h.drop_first())
    }
}

/// What a `StateFilter` holds: the history, newest first, each entry with its
/// local timestamp; the clock estimate, once a first packet has come; and the
/// tunable times.
pub struct StateFilterView {
    pub history: Seq<(i128, StatusView)>,
    pub sync: Option<ClockSync>,
    pub config: FilterConfig,
}

impl StateFilterView {
    /// The buffer before any packet.
    pub open spec fn fresh(config: FilterConfig) -> StateFilterView {
        StateFilterView { history: Seq::empty(), sync: None, config }
    }

    /// Whether the local timestamps never rise from front to back.
    pub open spec fn ordered(self) -> bool {
        descending(stamps(self.history))
    }

    /// The world samples of the history, newest first.
    pub open spec fn world_samples(self) -> Seq<(i128, WorldStateView)> {
        self.history.filter_map(|e: (i128, StatusView)| world_sample(e))
    }

    /// The clock estimate with which a packet is placed that arrives at local
    /// time `now` with the sender timestamp `sender_ts`: the first packet
    /// starts the estimate, and every packet gives the adaptation its turn.
    pub open spec fn sync_at(self, now: u64, sender_ts: u64) -> ClockSync {
        (match self.sync {
            Some(s) => s,
            None => ClockSync::started(now, sender_ts, self.config),
        }).adapted(now, self.config)
    }

    /// The buffer after the packet `status` has arrived at local time `now`:
    /// the packet is brought into the display convention, placed by its
    /// local timestamp, and what has outlived the retention window is
    /// dropped.
    pub open spec fn pushed(self, now: u64, status: StatusView) -> StateFilterView {
        let sync = self.sync_at(now, status.timestamp);
        StateFilterView {
            history: purged(
                inserted(
                    self.history,
                    sync.local_timestamp(status.timestamp),
                    remapped_status(status),
                ),
                now,
                self.config.retention_window,
            ),
            sync: Some(sync),
            config: self.config,
        }
    }

    /// The buffer after the packets of `arrivals` have come, one after the
    /// other, each at its own local time.
    pub open spec fn pushed_all(self, arrivals: Seq<(u64, StatusView)>) -> StateFilterView
        decreases arrivals.len(),
    {
        if arrivals.len() == 0 {
            self
        } else {
            self.pushed_all(arrivals.drop_last()).pushed(arrivals.last().0, arrivals.last().1)
        }
    }

    /// The world read at local time `now`: blended from the samples around
    /// `now` where `filter` is set, else the newest sample as it is.
    pub open spec fn world_at(self, now: u64, filter: bool) -> WorldStateView {
        if filter {
            sampled_world(self.world_samples(), now)
        } else {
            latest_world(self.world_samples())
        }
    }

    /// What a read at local time `now` records of the buffer's health.
    pub open spec fn event_at(self, now: u64, filter: bool) -> BufferEvent {
        if filter {
            buffer_event(self.world_samples(), now)
        } else {
            BufferEvent::Idle
        }
    }

    /// The buffer after a read at local time `now`: the history and the
    /// offset are as before, the health sample has the read recorded.
    pub open spec fn read_at(self, now: u64, filter: bool) -> StateFilterView {
        StateFilterView {
            sync: match self.sync {
                Some(s) => Some(s.after(self.event_at(now, filter))),
                None => None,
            },
            ..self
        }
    }

    /// The team names, each as the newest entry that names the team gives
    /// it: a packet that names one team only leaves the name of the other as
    /// an older packet gave it.
    pub open spec fn game_state(self) -> GameStateView {
        GameStateView {
            yellow_team: first_yellow_team(self.history),
            blue_team: first_blue_team(self.history),
        }
    }

    /// The field geometry as the newest entry that reports one gives it.
    pub open spec fn geometry_update(self) -> Option<FieldGeometry> {
        match first_dimensions(self.history) {
            Some(d) => Some(FieldGeometry::described_by(d)),
            None => None,
        }
    }

    /// The field geometry to show: the reported one, or the field of the
    /// larger division where none is reported or the reported one describes
    /// no field.
    pub open spec fn field_geometry(self) -> FieldGeometry {
        match self.geometry_update() {
            Some(g) => if g.is_degenerate() {
                FieldGeometry::division_a()
            } else {
                g
            },
            None => FieldGeometry::division_a(),
        }
    }
}

/// A packet pushed into an ordered history leaves an ordered history.
pub proof fn lemma_push_keeps_order(m: StateFilterView, now: u64, status: StatusView)
    requires
        m.ordered(),
    ensures
        m.pushed(now, status).ordered(),
{
    let ts = m.sync_at(now, status.timestamp).local_timestamp(status.timestamp);
    lemma_inserted_descending(m.history, ts, remapped_status(status));
    lemma_purged_descending(
        inserted(m.history, ts, remapped_status(status)),
        now,
        m.config.retention_window,
    );
}

/// A packet is placed by its local time, whatever its sign: in an ordered
/// history every entry with a later local time stays in front of it, also
/// where the packet was sent before the local clock began to count.
pub proof fn lemma_packet_goes_behind_later_entries(
    m: StateFilterView,
    now: u64,
    status: StatusView,
    i: int,
)
    requires
        m.ordered(),
        0 <= i < m.history.len(),
        m.history[i].0 > status.timestamp + m.sync_at(now, status.timestamp).offset,
    ensures
        inserted(
            m.history,
            m.sync_at(now, status.timestamp).local_timestamp(status.timestamp),
            remapped_status(status),
        )[i] == m.history[i],
        i < leading(
            stamps(m.history),
            is_newer(m.sync_at(now, status.timestamp).local_timestamp(status.timestamp)),
        ),
{
    let ts = m.sync_at(now, status.timestamp).local_timestamp(status.timestamp);
    crate::timeline::lemma_inserted_behind_newer(m.history, ts, remapped_status(status), i);
}

/// Whatever packets arrive, at whatever times and in whatever order, the
/// history of a buffer that started empty is ordered after each of them.
pub proof fn lemma_history_stays_ordered(config: FilterConfig, arrivals: Seq<(u64, StatusView)>)
    ensures
        StateFilterView::fresh(config).pushed_all(arrivals).ordered(),
    decreases arrivals.len(),
{
    if arrivals.len() > 0 {
        lemma_history_stays_ordered(config, arrivals.drop_last());
        lemma_push_keeps_order(
            StateFilterView::fresh(config).pushed_all(arrivals.drop_last()),
            arrivals.last().0,
            arrivals.last().1,
        );
    }
}

/// After a packet has arrived at local time `now`, every entry of the
/// history is within the retention window of `now`.
pub proof fn lemma_push_leaves_only_fresh(m: StateFilterView, now: u64, status: StatusView, i: int)
    requires
        0 <= i < m.pushed(now, status).history.len(),
    ensures
        now <= m.pushed(now, status).history[i].0 + m.config.retention_window,
{
    let ts = m.sync_at(now, status.timestamp).local_timestamp(status.timestamp);
    lemma_purged_fresh(
        inserted(m.history, ts, remapped_status(status)),
        now,
        m.config.retention_window,
        i,
    );
}

/// A push into an ordered history drops nothing that is within the retention
/// window: every such entry, the new one included, is in the history
/// afterwards, at the place that the insertion gave it.
pub proof fn lemma_push_keeps_fresh(m: StateFilterView, now: u64, status: StatusView, i: int)
    requires
        m.ordered(),
        0 <= i <= m.history.len(),
        now <= inserted(
            m.history,
            m.sync_at(now, status.timestamp).local_timestamp(status.timestamp),
            remapped_status(status),
        )[i].0 + m.config.retention_window,
    ensures
        i < m.pushed(now, status).history.len(),
        m.pushed(now, status).history[i] == inserted(
            m.history,
            m.sync_at(now, status.timestamp).local_timestamp(status.timestamp),
            remapped_status(status),
        )[i],
{
    let ts = m.sync_at(now, status.timestamp).local_timestamp(status.timestamp);
    lemma_inserted_descending(m.history, ts, remapped_status(status));
    crate::timeline::lemma_leading(stamps(m.history), is_newer(ts));
    lemma_purge_keeps_fresh(
        inserted(m.history, ts, remapped_status(status)),
        now,
        m.config.retention_window,
        i,
    );
}

/// A read changes nothing but the health sample: the history, the offset and
/// the time of the next adaptation are as they were.
pub proof fn lemma_read_keeps_offset(m: StateFilterView, now: u64, filter: bool)
    ensures
        m.read_at(now, filter).history == m.history,
        m.read_at(now, filter).config == m.config,
        m.read_at(now, filter).sync is Some <==> m.sync is Some,
        m.sync is Some ==> m.read_at(now, filter).sync->0.offset == m.sync->0.offset
            && m.read_at(now, filter).sync->0.scheduled_time == m.sync->0.scheduled_time,
{
}

/// The first packet of a buffer is placed at the local time of its arrival,
/// and a read at that time or later, with no other packet in between,
/// gives back its world in the display convention: nothing is blended.
pub proof fn lemma_first_packet_is_read_back(
    config: FilterConfig,
    arrival: u64,
    status: StatusView,
    now: u64,
)
    requires
        status.world_state is Some,
        i64::MIN <= arrival - status.timestamp <= i64::MAX,
        arrival <= now,
    ensures
        StateFilterView::fresh(config).pushed(arrival, status).history == seq![
            (arrival as i128, remapped_status(status)),
        ],
        StateFilterView::fresh(config).pushed(arrival, status).world_at(now, true)
            == remapped_world(status.world_state->0),
{
    let m = StateFilterView::fresh(config);
    let sync = m.sync_at(arrival, status.timestamp);
    assert(sync.local_timestamp(status.timestamp) == arrival);
    let one = inserted(m.history, arrival as i128, remapped_status(status));
    assert(stamps(m.history).len() == 0);
    assert(one =~= seq![(arrival as i128, remapped_status(status))]);
    assert(stamps(one)[0] == arrival);
    assert(is_fresh(arrival, config.retention_window)(stamps(one)[0]));
    lemma_leading_unique(stamps(one), is_fresh(arrival, config.retention_window), 1);
    assert(purged(one, arrival, config.retention_window) =~= one);
    let f = |e: (i128, StatusView)| world_sample(e);
    reveal_with_fuel(Seq::filter_map, 2);
    assert(one.drop_last() =~= Seq::<(i128, StatusView)>::empty());
    assert(one.filter_map(f) =~= seq![(arrival as i128, remapped_world(status.world_state->0))]);
    lemma_single_sample_is_held(arrival as i128, remapped_world(status.world_state->0), now);
}

/// The jitter buffer for status messages.
#[derive(Debug)]
pub struct StateFilter {
    /// The packets of the retention window with their local timestamps,
    /// newest first.
    packet_history: VecDeque<(i128, Status)>,
    /// The reading of the clock from which local time counts.
    time_reference: Instant,
    /// The clock estimate, once a first packet has come.
    sync: Option<ClockSync>,
    /// The tunable times.
    config: FilterConfig,
}

impl View for StateFilter {
    type V = StateFilterView;

    closed spec fn view(&self) -> StateFilterView {
        StateFilterView {
            history: viewed(self.packet_history@),
            sync: self.sync,
            config: self.config,
        }
    }
}

impl Default for StateFilter {
    fn default() -> (r: StateFilter)
        ensures
            r@ == StateFilterView::fresh(crate::sync::default_config()),
    {
        StateFilter::new(FilterConfig::default())
    }
}

impl StateFilter {
    /// An empty buffer whose local clock starts now.
    pub fn new(config: FilterConfig) -> (r: StateFilter)
        ensures
            r@ == StateFilterView::fresh(config),
            r@.ordered(),
    {
        let r = StateFilter {
            packet_history: VecDeque::new(),
            time_reference: instant_now(),
            sync: None,
            config,
        };
        assert(viewed(r.packet_history@) =~= Seq::<(i128, StatusView)>::empty());
        r
    }

    /// The local time: the microseconds since the buffer was made.
    pub fn local_time(&self) -> (r: u64) {
        micros_since(&self.time_reference)
    }

    /// The clock estimate, once a first packet has come.
    pub fn clock_sync(&self) -> (r: Option<ClockSync>)
        ensures
            r == self@.sync,
    {
        self.sync
    }

    /// The local timestamps of the history, newest first.
    pub fn history_timestamps(&self) -> (r: Vec<i128>)
        ensures
            r@ == stamps(self@.history),
    {
        let mut out: Vec<i128> = Vec::new();
        let n = self.packet_history.len();
        let mut i: usize = 0;
        while i < n
            invariant
                i <= n,
                n == self.packet_history@.len(),
                out@ == stamps(self@.history).take(i as int),
            decreases n - i,
        {
            out.push(self.packet_history[i].0);
            assert(out@ =~= stamps(self@.history).take(i as int + 1));
            i += 1;
        }
        assert(out@ =~= stamps(self@.history));
        out
    }

    /// Takes in a packet at the present local time.
    pub fn push_packet(&mut self, status: Status)
        ensures
            exists|now: u64| final(self)@ == old(self)@.pushed(now, status@),
            old(self)@.ordered() ==> final(self)@.ordered(),
    {
        let now = self.local_time();
        self.push_packet_at(now, status);
    }

    /// Takes in a packet that arrived at local time `now`.
    ///
    /// The history stays ordered, and nothing is left in it that at `now`
    /// has outlived the retention window.
    pub fn push_packet_at(&mut self, now: u64, status: Status)
        ensures
            final(self)@ == old(self)@.pushed(now, status@),
            old(self)@.ordered() ==> final(self)@.ordered(),
            forall|i: int|
                0 <= i < final(self)@.history.len() ==> now <= (#[trigger] final(self)@.history[i]).0
                    + old(self)@.config.retention_window,
    {
        proof {
            if self@.ordered() {
                lemma_push_keeps_order(self@, now, status@);
            }
            assert forall|i: int| 0 <= i < self@.pushed(now, status@).history.len() implies now <= (
            #[trigger] self@.pushed(now, status@).history[i]).0 + self@.config.retention_window by {
                lemma_push_leaves_only_fresh(self@, now, status@, i);
            }
        }
        let mut status = status;
        let mut sync = match self.sync {
            Some(s) => s,
            None => ClockSync::start(now, status.timestamp, &self.config),
        };
        sync.adapt(now, &self.config);
        self.sync = Some(sync);
        remap_coordinates(&mut status);
        let ts = sync.to_local(status.timestamp);
        insert_ordered(&mut self.packet_history, ts, status);
        purge_stale(&mut self.packet_history, now, self.config.retention_window);
    }

    /// The world samples of the history, newest first.
    fn world_samples(&self) -> (r: Vec<(i128, &WorldState)>)
        ensures
            sample_views(r@) == self@.world_samples(),
    {
        let ghost f = |e: (i128, StatusView)| world_sample(e);
        let ghost h = viewed(self.packet_history@);
        let mut out: Vec<(i128, &WorldState)> = Vec::new();
        let n = self.packet_history.len();
        let mut i: usize = 0;
        while i < n
            invariant
                i <= n,
                n == self.packet_history@.len(),
                h == viewed(self.packet_history@),
                f == (|e: (i128, StatusView)| world_sample(e)),
                sample_views(out@) == h.take(i as int).filter_map(f),
            decreases n - i,
        {
            proof {
                h.lemma_filter_map_take_succ(f, i as int);
            }
            let entry = &self.packet_history[i];
            let ghost before = out@;
            match &entry.1.world_state {
                Some(w) => {
                    out.push((entry.0, w));
                    assert(sample_views(out@) =~= sample_views(before) + seq![(entry.0, w@)]);
                },
                None => {},
            }
            i += 1;
        }
        assert(h.take(n as int) =~= h);
        out
    }

    /// The world at the present local time.
    pub fn current_world_state(&mut self, filter: bool) -> (r: WorldState)
        ensures
            exists|now: u64|
                r@ == old(self)@.world_at(now, filter) && final(self)@ == old(self)@.read_at(
                    now,
                    filter,
                ),
    {
        let now = self.local_time();
        self.current_world_state_at(now, filter)
    }

    /// The world at local time `now`.
    ///
    /// With `filter` set the world is blended from the two samples around
    /// `now`, and the read is recorded in the health sample. Without it the
    /// newest sample is given as it is and nothing is recorded.
    pub fn current_world_state_at(&mut self, now: u64, filter: bool) -> (r: WorldState)
        ensures
            r@ == old(self)@.world_at(now, filter),
            final(self)@ == old(self)@.read_at(now, filter),
    {
        let samples = self.world_samples();
        let (world, event) = if filter {
            read_samples(&samples, now)
        } else {
            (newest_sample(&samples), BufferEvent::Idle)
        };
        match self.sync {
            Some(s) => {
                let mut s = s;
                s.record(event);
                self.sync = Some(s);
            },
            None => {},
        }
        world
    }

    /// The name of the yellow team as the newest packet that names it gives
    /// it.
    fn yellow_team_name(&self) -> (r: String)
        ensures
            r@ == first_yellow_team(self@.history),
    {
        let ghost h = viewed(self.packet_history@);
        let n = self.packet_history.len();
        let mut i: usize = 0;
        assert(h.subrange(0, n as int) =~= h);
        while i < n
            invariant
                i <= n,
                n == self.packet_history@.len(),
                h == viewed(self.packet_history@),
                first_yellow_team(h) == first_yellow_team(h.subrange(i as int, n as int)),
            decreases n - i,
        {
            match &self.packet_history[i].1.yellow_team {
                Some(team) => {
                    return team.name.clone();
                },
                None => {},
            }
            assert(h.subrange(i as int, n as int).drop_first() =~= h.subrange(
                i as int + 1,
                n as int,
            ));
            i += 1;
        }
        String::new()
    }

    /// The name of the blue team as the newest packet that names it gives
    /// it.
    fn blue_team_name(&self) -> (r: String)
        ensures
            r@ == first_blue_team(self@.history),
    {
        let ghost h = viewed(self.packet_history@);
        let n = self.packet_history.len();
        let mut i: usize = 0;
        assert(h.subrange(0, n as int) =~= h);
        while i < n
            invariant
                i <= n,
                n == self.packet_history@.len(),
                h == viewed(self.packet_history@),
                first_blue_team(h) == first_blue_team(h.subrange(i as int, n as int)),
            decreases n - i,
        {
            match &self.packet_history[i].1.blue_team {
                Some(team) => {
                    return team.name.clone();
                },
                None => {},
            }
            assert(h.subrange(i as int, n as int).drop_first() =~= h.subrange(
                i as int + 1,
                n as int,
            ));
            i += 1;
        }
        String::new()
    }

    /// The team names, each as the newest packet that names the team gives
    /// it; an empty name for a team that no packet names.
    pub fn current_game_state(&self) -> (r: GameState)
        ensures
            r@ == self@.game_state(),
    {
        GameState { yellow_team: self.yellow_team_name(), blue_team: self.blue_team_name() }
    }

    /// The field dimensions of the newest packet that reports any.
    fn reported_dimensions(&self) -> (r: Option<FieldDimensions>)
        ensures
            r == first_dimensions(self@.history),
    {
        let ghost h = viewed(self.packet_history@);
        let n = self.packet_history.len();
        let mut i: usize = 0;
        assert(h.subrange(0, n as int) =~= h);
        while i < n
            invariant
                i <= n,
                n == self.packet_history@.len(),
                h == viewed(self.packet_history@),
                first_dimensions(h) == first_dimensions(h.subrange(i as int, n as int)),
            decreases n - i,
        {
            let status = &self.packet_history[i].1;
            if status.field_geometry.is_some() {
                return status.field_geometry;
            }
            assert(h.subrange(i as int, n as int).drop_first() =~= h.subrange(
                i as int + 1,
                n as int,
            ));
            i += 1;
        }
        None
    }

    /// The field geometry as the newest packet that reports one gives it,
    /// whatever it describes.
    pub fn field_geometry_update(&self) -> (r: Option<FieldGeometry>)
        ensures
            r == self@.geometry_update(),
    {
        match self.reported_dimensions() {
            Some(d) => Some(FieldGeometry::from_dimensions(&d)),
            None => None,
        }
    }

    /// The field geometry to show: the one that the newest packet with a
    /// geometry reports, or the field of the larger division where no packet
    /// reports one or the reported one describes no field.
    pub fn current_field_geometry(&self) -> (r: FieldGeometry)
        ensures
            r == self@.field_geometry(),
    {
        match self.field_geometry_update() {
            Some(g) => if g.degenerate() {
                FieldGeometry::default()
            } else {
                g
            },
            None => FieldGeometry::default(),
        }
    }
}

/// The overlay shard that a history entry carries, if it names one: the
/// shard and the drawings of the entry.
pub open spec fn overlay_shard(e: (i128, StatusView)) -> Option<
    (VisualizationGroup, Seq<VisualizationView>),
> {
    match e.1.visualization_group {
        Some(g) => Some((g, e.1.visualization)),
        None => None,
    }
}

/// The number of shards that each shard of a list says its partition has.
pub open spec fn partition_sizes(
    shards: Seq<(VisualizationGroup, Seq<VisualizationView>)>,
) -> Seq<i128> {
    shards.map_values(|s: (VisualizationGroup, Seq<VisualizationView>)| s.0.group_count as i128)
}

/// The partition sizes equal to `count`.
pub open spec fn is_size(count: u32) -> spec_fn(i128) -> bool {
    |c: i128| c == count as i128
}

/// The leading shards that belong to the partition of the first.
pub open spec fn running_partition(
    shards: Seq<(VisualizationGroup, Seq<VisualizationView>)>,
) -> Seq<(VisualizationGroup, Seq<VisualizationView>)> {
    if shards.len() == 0 {
        shards
    } else {
        shards.take(leading(partition_sizes(shards), is_size(shards[0].0.group_count)) as int)
    }
}

/// The shards that a list names, and the drawings of the first entry of
/// each.
pub open spec fn gathered(shards: Seq<(VisualizationGroup, Seq<VisualizationView>)>) -> (
    Set<u32>,
    Seq<VisualizationView>,
)
    decreases shards.len(),
{
    if shards.len() == 0 {
        (Set::empty(), Seq::empty())
    } else {
        let before = gathered(shards.drop_last());
        if before.0.contains(shards.last().0.group) {
            before
        } else {
            (before.0.insert(shards.last().0.group), before.1 + shards.last().1)
        }
    }
}

impl StateFilterView {
    /// The overlay shards of the history, newest first.
    pub open spec fn overlay_shards(self) -> Seq<(VisualizationGroup, Seq<VisualizationView>)> {
        self.history.filter_map(|e: (i128, StatusView)| overlay_shard(e))
    }

    /// The number of shards that the overlay is partitioned into: what the
    /// newest shard says, and one where the history names no shard.
    pub open spec fn overlay_count(self) -> u32 {
        if self.overlay_shards().len() > 0 {
            self.overlay_shards()[0].0.group_count
        } else {
            1
        }
    }

    /// The shards of the running partition that the history holds.
    pub open spec fn overlay_groups(self) -> Set<u32> {
        gathered(running_partition(self.overlay_shards())).0
    }

    /// The drawings of the running partition: of each shard those of its
    /// newest entry.
    pub open spec fn overlay_visualizations(self) -> Seq<VisualizationView> {
        gathered(running_partition(self.overlay_shards())).1
    }
}

/// What a list of shards with borrowed drawings holds.
pub open spec fn shard_views(list: Seq<(VisualizationGroup, &Vec<Visualization>)>) -> Seq<
    (VisualizationGroup, Seq<VisualizationView>),
> {
    list.map_values(|s: (VisualizationGroup, &Vec<Visualization>)| (s.0, visualization_views(s.1@)))
}

impl StateFilter {
    /// The overlay shards of the history, newest first.
    fn overlay_shards(&self) -> (r: Vec<(VisualizationGroup, &Vec<Visualization>)>)
        ensures
            shard_views(r@) == self@.overlay_shards(),
    {
        let ghost f = |e: (i128, StatusView)| overlay_shard(e);
        let ghost h = viewed(self.packet_history@);
        let mut out: Vec<(VisualizationGroup, &Vec<Visualization>)> = Vec::new();
        let n = self.packet_history.len();
        let mut i: usize = 0;
        while i < n
            invariant
                i <= n,
                n == self.packet_history@.len(),
                h == viewed(self.packet_history@),
                f == (|e: (i128, StatusView)| overlay_shard(e)),
                shard_views(out@) == h.take(i as int).filter_map(f),
            decreases n - i,
        {
            proof {
                h.lemma_filter_map_take_succ(f, i as int);
            }
            let entry = &self.packet_history[i];
            let ghost before = out@;
            match entry.1.visualization_group {
                Some(g) => {
                    out.push((g, &entry.1.visualization));
                    assert(shard_views(out@) =~= shard_views(before) + seq![
                        (g, visualization_views(entry.1.visualization@)),
                    ]);
                },
                None => {},
            }
            i += 1;
        }
        assert(h.take(n as int) =~= h);
        out
    }

    /// The drawings of the overlay as the history holds them, with the
    /// number of shards they are partitioned into and the shards that are
    /// there. Only the shards of the running partition count, and of each
    /// shard the newest entry.
    pub fn visualization_updates(&self) -> (r: (u32, HashSet<u32>, Vec<Visualization>))
        ensures
            r.0 == self@.overlay_count(),
            r.1@ == self@.overlay_groups(),
            visualization_views(r.2@) == self@.overlay_visualizations(),
    {
        let shards = self.overlay_shards();
        let ghost all = shard_views(shards@);
        let mut groups: HashSet<u32> = HashSet::new();
        let mut visualizations: Vec<Visualization> = Vec::new();
        let n = shards.len();
        if n == 0 {
            assert(groups@ =~= gathered(running_partition(all)).0);
            assert(visualization_views(visualizations@) =~= gathered(running_partition(all)).1);
            return (1, groups, visualizations);
        }
        let group_count = shards[0].0.group_count;
        assert(all[0].0 == shards@[0].0);
        let mut k: usize = 0;
        loop
            invariant_except_break
                k <= n,
            invariant
                n == shards@.len(),
                all == shard_views(shards@),
                forall|j: int| 0 <= j < k ==> shards@[j].0.group_count == group_count,
            ensures
                k <= n,
                k < n ==> shards@[k as int].0.group_count != group_count,
            decreases n - k,
        {
            if k >= n {
                break ;
            }
            if shards[k].0.group_count != group_count {
                break ;
            }
            k += 1;
        }
        proof {
            let sizes = partition_sizes(all);
            assert forall|j: int| 0 <= j < k implies is_size(group_count)(#[trigger] sizes[j]) by {
                assert(all[j].0 == shards@[j].0);
            }
            if k < n {
                assert(all[k as int].0 == shards@[k as int].0);
                assert(!is_size(group_count)(sizes[k as int]));
            }
            lemma_leading_unique(sizes, is_size(group_count), k as int);
        }
        let ghost epoch = running_partition(all);
        assert(epoch == all.take(k as int));
        let mut i: usize = 0;
        assert(epoch.take(0) =~= Seq::empty());
        assert(groups@ =~= gathered(epoch.take(0)).0);
        assert(visualization_views(visualizations@) =~= gathered(epoch.take(0)).1);
        while i < k
            invariant
                i <= k,
                k <= n,
                n == shards@.len(),
                all == shard_views(shards@),
                epoch == all.take(k as int),
                groups@ == gathered(epoch.take(i as int)).0,
                visualization_views(visualizations@) == gathered(epoch.take(i as int)).1,
            decreases k - i,
        {
            let (group, list) = shards[i];
            proof {
                assert(epoch.take(i as int + 1).drop_last() =~= epoch.take(i as int));
                assert(epoch.take(i as int + 1).last() == all[i as int]);
                assert(all[i as int] == (group, visualization_views(list@)));
            }
            if !groups.contains(&group.group) {
                groups.insert(group.group);
                let ghost shown = visualizations@;
                let mut copy = clone_visualizations(list);
                visualizations.append(&mut copy);
                assert(visualization_views(visualizations@) =~= visualization_views(shown)
                    + visualization_views(list@));
            }
            i += 1;
        }
        assert(epoch.take(k as int) =~= epoch);
        (group_count, groups, visualizations)
    }
}

} // verus!
