//! The tracker of overlay updates.
//!
//! The overlay of a field arrives in shards: each update says which of
//! `group_count` shards it is, and holds the drawings of some sources. The
//! tracker keeps the newest updates until every shard of the running
//! partition has been seen once, and hands the drawings out source by
//! source, the newest of each source only.

use crate::telemetry::{
    clone_visualizations, remap_visualizations, remapped_update, visualization_views,
    Visualization, VisualizationSetView, VisualizationUpdate, VisualizationUpdateView,
    VisualizationView,
};
use std::collections::HashSet;
use std::collections::VecDeque;
use vstd::prelude::*;

verus! {

/// The views of a list of updates.
pub open spec fn update_views(list: Seq<VisualizationUpdate>) -> Seq<VisualizationUpdateView> {
    list.map_values(|u: VisualizationUpdate| u@)
}

/// The number of shards in the partition that an update belongs to. An
/// update that names no shard stands for a partition of one.
pub open spec fn epoch_count(update: VisualizationUpdateView) -> u32 {
    match update.visualization_group {
        Some(g) => g.group_count,
        None => 1,
    }
}

/// The shard that an update belongs to.
pub open spec fn shard_of(update: VisualizationUpdateView) -> u32 {
    match update.visualization_group {
        Some(g) => g.group,
        None => 0,
    }
}

/// The shards named by the first `i` updates.
pub open spec fn shards_before(h: Seq<VisualizationUpdateView>, i: int) -> Set<u32> {
    Set::new(
        |g: u32|
            exists|j: int|
                0 <= j < i && j < h.len() && (#[trigger] h[j]).visualization_group is Some
                    && shard_of(h[j]) == g,
    )
}

/// How many updates are kept, counted from the front, when the scan stands
/// before update `i` and has seen the shards `seen` of a partition of `count`
/// shards. The scan stops before the first update of another partition, and
/// behind the first update with which every shard has been seen.
pub open spec fn retained_from(
    h: Seq<VisualizationUpdateView>,
    count: u32,
    seen: Set<u32>,
    i: int,
) -> int
    decreases h.len() - i,
{
    if i < 0 || i >= h.len() {
        h.len() as int
    } else {
        match h[i].visualization_group {
            Some(g) => if g.group_count != count {
                i
            } else if seen.insert(g.group).len() >= count {
                i + 1
            } else {
                retained_from(h, count, seen.insert(g.group), i + 1)
            },
            None => if seen.len() >= count {
                i + 1
            } else {
                retained_from(h, count, seen, i + 1)
            },
        }
    }
}

/// How many updates of a history are kept: those of the partition of the
/// newest update, as far back as it takes to see every shard once.
pub open spec fn retained_len(h: Seq<VisualizationUpdateView>) -> int {
    if h.len() == 0 {
        0
    } else {
        retained_from(h, epoch_count(h[0]), Set::empty(), 0)
    }
}

/// The history after the update `update` has come: the update goes to the
/// front in the display convention, and the history is cut to what is kept.
pub open spec fn pushed(
    h: Seq<VisualizationUpdateView>,
    update: VisualizationUpdateView,
) -> Seq<VisualizationUpdateView> {
    let longer = seq![remapped_update(update)] + h;
    longer.take(retained_len(longer))
}

/// Whether every update names its shard.
pub open spec fn all_grouped(h: Seq<VisualizationUpdateView>) -> bool {
    forall|i: int| 0 <= i < h.len() ==> (#[trigger] h[i]).visualization_group is Some
}

/// The sets of an update, each with the shard of the update.
pub open spec fn tagged(update: VisualizationUpdateView) -> Seq<(u32, VisualizationSetView)> {
    update.visualization_set.map_values(|s: VisualizationSetView| (shard_of(update), s))
}

/// The sets of a history with their shards, newest update first.
pub open spec fn keyed_sets(h: Seq<VisualizationUpdateView>) -> Seq<(u32, VisualizationSetView)>
    decreases h.len(),
{
    if h.len() == 0 {
        Seq::empty()
    } else {
        keyed_sets(h.drop_last()) + tagged(h.last())
    }
}

/// Whether the set at `i` names a source of which the same shard holds a
/// set further to the front.
pub open spec fn repeats(keyed: Seq<(u32, VisualizationSetView)>, i: int) -> bool {
    keyed[i].1.source is Some && exists|j: int|
        0 <= j < i && (#[trigger] keyed[j]).0 == keyed[i].0 && keyed[j].1.source
            == keyed[i].1.source
}

/// The sets that are handed out: of each shard and source the first one. A
/// set that names no source is always handed out.
pub open spec fn kept_sets(keyed: Seq<(u32, VisualizationSetView)>) -> Seq<
    (u32, VisualizationSetView),
>
    decreases keyed.len(),
{
    if keyed.len() == 0 {
        Seq::empty()
    } else if repeats(keyed, keyed.len() - 1) {
        kept_sets(keyed.drop_last())
    } else {
        kept_sets(keyed.drop_last()).push(keyed.last())
    }
}

/// The drawings of a list of sets, one set after the other.
pub open spec fn all_visualizations(sets: Seq<(u32, VisualizationSetView)>) -> Seq<
    VisualizationView,
>
    decreases sets.len(),
{
    if sets.len() == 0 {
        Seq::empty()
    } else {
        all_visualizations(sets.drop_last()) + sets.last().1.visualization
    }
}

/// The number of shards that the collected drawings are partitioned into:
/// that of the newest update, and none for an empty history.
pub open spec fn collected_count(h: Seq<VisualizationUpdateView>) -> u32 {
    if h.len() == 0 {
        0
    } else {
        epoch_count(h[0])
    }
}

/// The shards that the updates of a history belong to.
pub open spec fn collected_groups(h: Seq<VisualizationUpdateView>) -> Set<u32> {
    Set::new(|g: u32| exists|i: int| 0 <= i < h.len() && shard_of(#[trigger] h[i]) == g)
}

/// The drawings that a history hands out.
pub open spec fn collected_visualizations(h: Seq<VisualizationUpdateView>) -> Seq<
    VisualizationView,
> {
    all_visualizations(kept_sets(keyed_sets(h)))
}

/// What the scan keeps is a prefix that holds no update of another
/// partition; it is never shorter than where the scan stands.
pub proof fn lemma_retained_from(
    h: Seq<VisualizationUpdateView>,
    count: u32,
    seen: Set<u32>,
    i: int,
)
    requires
        0 <= i <= h.len(),
        forall|j: int|
            0 <= j < i ==> ((#[trigger] h[j]).visualization_group is Some ==> epoch_count(h[j])
                == count),
    ensures
        i <= retained_from(h, count, seen, i) <= h.len(),
        forall|j: int|
            0 <= j < retained_from(h, count, seen, i) ==> ((
            #[trigger] h[j]).visualization_group is Some ==> epoch_count(h[j]) == count),
    decreases h.len() - i,
{
    if i < h.len() {
        match h[i].visualization_group {
            Some(g) => {
                if g.group_count == count && seen.insert(g.group).len() < count {
                    lemma_retained_from(h, count, seen.insert(g.group), i + 1);
                }
            },
            None => {
                if seen.len() < count {
                    lemma_retained_from(h, count, seen, i + 1);
                }
            },
        }
    }
}

/// After a push the newest update is in the history, and every update in it
/// that names a shard belongs to the partition of the newest.
pub proof fn lemma_pushed_is_one_epoch(
    h: Seq<VisualizationUpdateView>,
    update: VisualizationUpdateView,
)
    ensures
        pushed(h, update).len() >= 1,
        pushed(h, update)[0] == remapped_update(update),
        forall|j: int|
            0 <= j < pushed(h, update).len() ==> ((
            #[trigger] pushed(h, update)[j]).visualization_group is Some ==> epoch_count(
                pushed(h, update)[j],
            ) == epoch_count(update)),
{
    let longer = seq![remapped_update(update)] + h;
    let count = epoch_count(longer[0]);
    lemma_retained_from(longer, count, Set::empty(), 0);
    match longer[0].visualization_group {
        Some(g) => {
            if Set::<u32>::empty().insert(g.group).len() < count {
                lemma_retained_from(longer, count, Set::empty().insert(g.group), 1);
            }
        },
        None => {
            if Set::<u32>::empty().len() < count {
                lemma_retained_from(longer, count, Set::empty(), 1);
            }
        },
    }
    assert forall|j: int|
        0 <= j < pushed(h, update).len() && (
        #[trigger] pushed(h, update)[j]).visualization_group is Some implies epoch_count(
        pushed(h, update)[j],
    ) == epoch_count(update) by {
        assert(pushed(h, update)[j] == longer[j]);
    }
}

/// The shards named by a prefix are finitely many, and one more update adds
/// at most its own shard.
pub proof fn lemma_shards_before(h: Seq<VisualizationUpdateView>, i: int)
    requires
        0 <= i <= h.len(),
    ensures
        shards_before(h, i).finite(),
        i == 0 ==> shards_before(h, i) == Set::<u32>::empty(),
        i < h.len() ==> shards_before(h, i + 1) == (match h[i].visualization_group {
            Some(g) => shards_before(h, i).insert(g.group),
            None => shards_before(h, i),
        }),
    decreases i,
{
    if i == 0 {
        assert(shards_before(h, 0) =~= Set::<u32>::empty());
    } else {
        lemma_shards_before(h, i - 1);
    }
    if i < h.len() {
        let next = match h[i].visualization_group {
            Some(g) => shards_before(h, i).insert(g.group),
            None => shards_before(h, i),
        };
        assert forall|g: u32| shards_before(h, i + 1).contains(g) implies next.contains(g) by {
            let j = choose|j: int|
                0 <= j < i + 1 && j < h.len() && (#[trigger] h[j]).visualization_group is Some
                    && shard_of(h[j]) == g;
            if j < i {
                assert(shards_before(h, i).contains(g));
            }
        }
        assert forall|g: u32| next.contains(g) implies shards_before(h, i + 1).contains(g) by {
            if shards_before(h, i).contains(g) {
                let j = choose|j: int|
                    0 <= j < i && j < h.len() && (#[trigger] h[j]).visualization_group is Some
                        && shard_of(h[j]) == g;
                assert(h[j].visualization_group is Some && shard_of(h[j]) == g);
            } else {
                assert(h[i].visualization_group is Some && shard_of(h[i]) == g);
            }
        }
        assert(shards_before(h, i + 1) =~= next);
    }
}

/// Where the scan stops, seen from where it stands: before that place no
/// prefix names as many shards as the partition has, and the place itself is
/// where a prefix first does, or where another partition begins, or the end
/// of the history.
pub proof fn lemma_scan_stops_at_first_completion(
    h: Seq<VisualizationUpdateView>,
    count: u32,
    i: int,
)
    requires
        0 <= i <= h.len(),
        forall|c: int| 1 <= c <= i ==> #[trigger] shards_before(h, c).len() < count,
    ensures
        forall|c: int|
            1 <= c < retained_from(h, count, shards_before(h, i), i) ==> #[trigger] shards_before(
                h,
                c,
            ).len() < count,
        ({
            let r = retained_from(h, count, shards_before(h, i), i);
            r < h.len() && shards_before(h, r).len() < count ==> h[r].visualization_group is Some
                && epoch_count(h[r]) != count
        }),
    decreases h.len() - i,
{
    if i < h.len() {
        lemma_shards_before(h, i);
        match h[i].visualization_group {
            Some(g) => {
                if g.group_count == count && shards_before(h, i).insert(g.group).len() < count {
                    lemma_scan_stops_at_first_completion(h, count, i + 1);
                }
            },
            None => {
                if shards_before(h, i).len() < count {
                    lemma_scan_stops_at_first_completion(h, count, i + 1);
                }
            },
        }
    }
}

/// What a push keeps: the updates from the new one back to the first with
/// which every shard of the partition has been named, that one included; or
/// back to the first update of another partition, that one left out; or the
/// whole history where neither is found.
pub proof fn lemma_pushed_ends_at_first_completion(
    h: Seq<VisualizationUpdateView>,
    update: VisualizationUpdateView,
)
    ensures
        ({
            let longer = seq![remapped_update(update)] + h;
            let kept = pushed(h, update).len() as int;
            let count = epoch_count(update);
            &&& forall|c: int| 1 <= c < kept ==> #[trigger] shards_before(longer, c).len() < count
            &&& kept < longer.len() && shards_before(longer, kept).len() < count
                ==> longer[kept].visualization_group is Some && epoch_count(longer[kept]) != count
        }),
{
    let longer = seq![remapped_update(update)] + h;
    lemma_shards_before(longer, 0);
    lemma_retained_from(longer, epoch_count(longer[0]), Set::empty(), 0);
    lemma_scan_stops_at_first_completion(longer, epoch_count(longer[0]), 0);
}

/// Where every update names its shard, the history after a push does too.
pub proof fn lemma_pushed_keeps_grouped(
    h: Seq<VisualizationUpdateView>,
    update: VisualizationUpdateView,
)
    requires
        all_grouped(h),
        update.visualization_group is Some,
    ensures
        all_grouped(pushed(h, update)),
{
    let longer = seq![remapped_update(update)] + h;
    lemma_retained_from(longer, epoch_count(longer[0]), Set::empty(), 0);
    assert forall|i: int| 0 <= i < pushed(h, update).len() implies (#[trigger] pushed(
        h,
        update,
    )[i]).visualization_group is Some by {
        assert(pushed(h, update)[i] == longer[i]);
        if i > 0 {
            assert(longer[i] == h[i - 1]);
        }
    }
}

/// Every set that is handed out is a set of the history.
pub proof fn lemma_kept_sets_are_keyed(keyed: Seq<(u32, VisualizationSetView)>, i: int)
    requires
        0 <= i < kept_sets(keyed).len(),
    ensures
        exists|j: int| 0 <= j < keyed.len() && #[trigger] keyed[j] == kept_sets(keyed)[i],
    decreases keyed.len(),
{
    let rest = keyed.drop_last();
    if i < kept_sets(rest).len() {
        lemma_kept_sets_are_keyed(rest, i);
        let j = choose|j: int| 0 <= j < rest.len() && #[trigger] rest[j] == kept_sets(rest)[i];
        assert(keyed[j] == kept_sets(keyed)[i]);
    } else {
        assert(keyed[keyed.len() - 1] == kept_sets(keyed)[i]);
    }
}

/// No two sets that are handed out belong to the same shard and the same
/// source: of each pair of shard and source exactly one set comes out.
pub proof fn lemma_kept_sets_distinct(keyed: Seq<(u32, VisualizationSetView)>, a: int, b: int)
    requires
        0 <= a < b < kept_sets(keyed).len(),
        kept_sets(keyed)[a].1.source is Some,
    ensures
        !(kept_sets(keyed)[a].0 == kept_sets(keyed)[b].0 && kept_sets(keyed)[a].1.source
            == kept_sets(keyed)[b].1.source),
    decreases keyed.len(),
{
    let rest = keyed.drop_last();
    if b < kept_sets(rest).len() {
        lemma_kept_sets_distinct(rest, a, b);
    } else {
        lemma_kept_sets_are_keyed(rest, a);
        let j = choose|j: int| 0 <= j < rest.len() && #[trigger] rest[j] == kept_sets(rest)[a];
        assert(keyed[j] == rest[j]);
    }
}

/// Every shard and source of the history has a set among those handed out.
pub proof fn lemma_kept_sets_cover(keyed: Seq<(u32, VisualizationSetView)>, j: int)
    requires
        0 <= j < keyed.len(),
    ensures
        exists|i: int|
            0 <= i < kept_sets(keyed).len() && (#[trigger] kept_sets(keyed)[i]).0 == keyed[j].0
                && kept_sets(keyed)[i].1.source == keyed[j].1.source,
    decreases keyed.len(),
{
    let rest = keyed.drop_last();
    let last = keyed.len() - 1;
    if j < last {
        lemma_kept_sets_cover(rest, j);
        let i = choose|i: int|
            0 <= i < kept_sets(rest).len() && (#[trigger] kept_sets(rest)[i]).0 == rest[j].0
                && kept_sets(rest)[i].1.source == rest[j].1.source;
        assert(kept_sets(keyed)[i] == kept_sets(rest)[i]);
    } else if repeats(keyed, last) {
        let k = choose|k: int|
            0 <= k < last && (#[trigger] keyed[k]).0 == keyed[last].0 && keyed[k].1.source
                == keyed[last].1.source;
        lemma_kept_sets_cover(rest, k);
        let i = choose|i: int|
            0 <= i < kept_sets(rest).len() && (#[trigger] kept_sets(rest)[i]).0 == rest[k].0
                && kept_sets(rest)[i].1.source == rest[k].1.source;
        assert(kept_sets(keyed)[i] == kept_sets(rest)[i]);
    } else {
        assert(kept_sets(keyed)[kept_sets(rest).len() as int] == keyed[last]);
    }
}

/// The one number that stands for the pair of a shard and a source: the
/// shard in the upper half, the source in the lower.
pub open spec fn pair_key(group: u32, source: u32) -> u64 {
    (group * 0x1_0000_0000 + source) as u64
}

/// Two pairs with the same number are the same pair.
pub proof fn lemma_pair_key_injective(group: u32, source: u32, other: u32, origin: u32)
    requires
        pair_key(group, source) == pair_key(other, origin),
    ensures
        group == other,
        source == origin,
{
}

/// The number that stands for the pair of `group` and `source`.
fn key_of(group: u32, source: u32) -> (r: u64)
    ensures
        r == pair_key(group, source),
{
    (group as u64) * 0x1_0000_0000 + source as u64
}

/// The tracker of overlay updates.
#[derive(Debug)]
pub struct VisualizationTracker {
    /// The updates that are kept, newest first.
    history: VecDeque<VisualizationUpdate>,
}

impl View for VisualizationTracker {
    type V = Seq<VisualizationUpdateView>;

    closed spec fn view(&self) -> Seq<VisualizationUpdateView> {
        update_views(self.history@)
    }
}

impl Default for VisualizationTracker {
    fn default() -> (r: VisualizationTracker)
        ensures
            r@ == Seq::<VisualizationUpdateView>::empty(),
    {
        VisualizationTracker::new()
    }
}

impl VisualizationTracker {
    /// A tracker that holds nothing.
    pub fn new() -> (r: VisualizationTracker)
        ensures
            r@ == Seq::<VisualizationUpdateView>::empty(),
            all_grouped(r@),
    {
        let r = VisualizationTracker { history: VecDeque::new() };
        assert(update_views(r.history@) =~= Seq::<VisualizationUpdateView>::empty());
        r
    }

    /// The number of updates that are kept.
    pub fn len(&self) -> (r: usize)
        ensures
            r == self@.len(),
    {
        self.history.len()
    }

    /// Whether every update that is kept names its shard.
    pub fn is_grouped(&self) -> (r: bool)
        ensures
            r == all_grouped(self@),
    {
        let n = self.history.len();
        let mut i: usize = 0;
        while i < n
            invariant
                i <= n,
                n == self.history@.len(),
                forall|k: int| 0 <= k < i ==> (#[trigger] self@[k]).visualization_group is Some,
            decreases n - i,
        {
            if self.history[i].visualization_group.is_none() {
                assert(self@[i as int].visualization_group is None);
                return false;
            }
            i += 1;
        }
        true
    }

    /// Takes in an update.
    ///
    /// The update goes to the front in the display convention. Then the
    /// history is cut: before the first update of another partition than
    /// that of the new update, and behind the first update with which every
    /// shard of the partition has been seen.
    pub fn push_update(&mut self, new_update: VisualizationUpdate)
        ensures
            final(self)@ == pushed(old(self)@, new_update@),
            all_grouped(old(self)@) && new_update@.visualization_group is Some ==> all_grouped(
                final(self)@,
            ),
    {
        proof {
            if all_grouped(self@) && new_update@.visualization_group is Some {
                lemma_pushed_keeps_grouped(self@, new_update@);
            }
        }
        let mut new_update = new_update;
        remap_visualizations(&mut new_update);
        let new_group_count = match new_update.visualization_group {
            Some(g) => g.group_count,
            None => 1,
        };
        let ghost front = new_update@;
        self.history.push_front(new_update);
        let ghost longer = update_views(self.history@);
        assert(longer =~= seq![front] + old(self)@);
        let mut seen_groups: HashSet<u32> = HashSet::new();
        let n = self.history.len();
        let mut cut: usize = n;
        let mut i: usize = 0;
        loop
            invariant_except_break
                i <= n,
                cut == n,
                retained_len(longer) == retained_from(
                    longer,
                    new_group_count,
                    seen_groups@,
                    i as int,
                ),
            invariant
                n == self.history@.len(),
                n >= 1,
                longer == update_views(self.history@),
                new_group_count == epoch_count(longer[0]),
                seen_groups@.finite(),
            ensures
                cut == retained_len(longer),
                cut <= n,
            decreases n - i,
        {
            if i >= n {
                break ;
            }
            assert(longer[i as int] == self.history@[i as int]@);
            match self.history[i].visualization_group {
                Some(group) => {
                    if group.group_count == new_group_count {
                        seen_groups.insert(group.group);
                    } else {
                        cut = i;
                        break ;
                    }
                },
                None => {},
            }
            if seen_groups.len() >= new_group_count as usize {
                cut = i + 1;
                break ;
            }
            i += 1;
        }
        self.history.truncate(cut);
        assert(update_views(self.history@) =~= longer.take(cut as int));
    }

    /// Hands out the drawings that have come since the last call, with the
    /// number of shards they are partitioned into and the shards that have
    /// news. Of each shard and source only the newest set is handed out; sets
    /// that name no source all are. Afterwards the tracker holds nothing.
    pub fn visualization_updates(&mut self) -> (r: (u32, HashSet<u32>, Vec<Visualization>))
        requires
            all_grouped(old(self)@),
        ensures
            final(self)@.len() == 0,
            r.0 == collected_count(old(self)@),
            r.1@ == collected_groups(old(self)@),
            visualization_views(r.2@) == collected_visualizations(old(self)@),
    {
        let ghost h = update_views(self.history@);
        let mut groups: HashSet<u32> = HashSet::new();
        let mut visualizations: Vec<Visualization> = Vec::new();
        let n = self.history.len();
        if n == 0 {
            self.history.clear();
            assert(update_views(self.history@) =~= Seq::<VisualizationUpdateView>::empty());
            assert(groups@ =~= collected_groups(h));
            assert(keyed_sets(h) =~= Seq::empty());
            assert(visualization_views(visualizations@) =~= collected_visualizations(h));
            return (0, groups, visualizations);
        }
        let group_count = match self.history[0].visualization_group {
            Some(g) => g.group_count,
            None => 1,
        };
        assert(h[0] == self.history@[0]@);
        let mut seen: HashSet<u64> = HashSet::new();
        let ghost mut processed: Seq<(u32, VisualizationSetView)> = Seq::empty();
        let mut i: usize = 0;
        assert(h.take(0) =~= Seq::empty());
        assert(visualization_views(visualizations@) =~= all_visualizations(
            kept_sets(processed),
        ));
        while i < n
            invariant
                i <= n,
                n == self.history@.len(),
                h == update_views(self.history@),
                all_grouped(h),
                processed == keyed_sets(h.take(i as int)),
                groups@ == collected_groups(h.take(i as int)),
                forall|g: u32, s: u32|
                    seen@.contains(#[trigger] pair_key(g, s)) <==> exists|k: int|
                        0 <= k < processed.len() && (#[trigger] processed[k]).0 == g
                            && processed[k].1.source == Some(s),
                visualization_views(visualizations@) == all_visualizations(kept_sets(processed)),
            decreases n - i,
        {
            assert(h[i as int] == self.history@[i as int]@);
            let update = &self.history[i];
            let group = match update.visualization_group {
                Some(g) => g.group,
                None => 0,
            };
            groups.insert(group);
            proof {
                assert(h.take(i as int + 1).drop_last() =~= h.take(i as int));
                assert(h.take(i as int + 1).last() == h[i as int]);
                assert(groups@ =~= collected_groups(h.take(i as int + 1))) by {
                    assert forall|g: u32|
                        collected_groups(h.take(i as int + 1)).contains(g) implies groups@.contains(
                        g,
                    ) by {
                        let k = choose|k: int|
                            0 <= k < h.take(i as int + 1).len() && shard_of(
                                #[trigger] h.take(i as int + 1)[k],
                            ) == g;
                        if k < i {
                            assert(shard_of(h.take(i as int)[k]) == g);
                        }
                    }
                    assert forall|g: u32| groups@.contains(g) implies collected_groups(
                        h.take(i as int + 1),
                    ).contains(g) by {
                        if g == group {
                            assert(shard_of(h.take(i as int + 1)[i as int]) == g);
                        } else {
                            let k = choose|k: int|
                                0 <= k < h.take(i as int).len() && shard_of(
                                    #[trigger] h.take(i as int)[k],
                                ) == g;
                            assert(shard_of(h.take(i as int + 1)[k]) == g);
                        }
                    }
                }
            }
            let ghost base = processed;
            let ghost sets = tagged(h[i as int]);
            let m = update.visualization_set.len();
            let mut j: usize = 0;
            assert(sets.take(0) =~= Seq::empty());
            assert(base + sets.take(0) =~= base);
            while j < m
                invariant
                    j <= m,
                    i < n,
                    n == self.history@.len(),
                    h == update_views(self.history@),
                    *update == self.history@[i as int],
                    m == update.visualization_set@.len(),
                    sets == tagged(h[i as int]),
                    sets.len() == m,
                    group == shard_of(h[i as int]),
                    processed == base + sets.take(j as int),
                    forall|g: u32, s: u32|
                        seen@.contains(#[trigger] pair_key(g, s)) <==> exists|k: int|
                            0 <= k < processed.len() && (#[trigger] processed[k]).0 == g
                                && processed[k].1.source == Some(s),
                    visualization_views(visualizations@) == all_visualizations(
                        kept_sets(processed),
                    ),
                decreases m - j,
            {
                let set = &update.visualization_set[j];
                let ghost item = (group, set@);
                let ghost before = processed;
                let ghost seen_before = seen@;
                proof {
                    assert(h[i as int].visualization_set[j as int] == set@);
                    assert(sets[j as int] == item);
                    assert(sets.take(j as int + 1) =~= sets.take(j as int).push(item));
                    processed = before.push(item);
                    assert(processed =~= base + sets.take(j as int + 1));
                    assert(processed.drop_last() =~= before);
                    assert(processed.last() == item);
                }
                let first = match set.source {
                    Some(source) => {
                        let key = key_of(group, source);
                        if seen.contains(&key) {
                            false
                        } else {
                            seen.insert(key);
                            true
                        }
                    },
                    None => true,
                };
                proof {
                    let last = processed.len() - 1;
                    if repeats(processed, last) {
                        let k = choose|k: int|
                            0 <= k < last && (#[trigger] processed[k]).0 == processed[last].0
                                && processed[k].1.source == processed[last].1.source;
                        assert(before[k] == processed[k]);
                        assert(seen_before.contains(pair_key(group, set.source->0)));
                    }
                    if !first {
                        let k = choose|k: int|
                            0 <= k < before.len() && (#[trigger] before[k]).0 == group
                                && before[k].1.source == set.source;
                        assert(processed[k] == before[k]);
                    }
                    assert(first == !repeats(processed, last));
                    assert forall|g: u32, s: u32|
                        seen@.contains(#[trigger] pair_key(g, s)) implies exists|k: int|
                        0 <= k < processed.len() && (#[trigger] processed[k]).0 == g
                            && processed[k].1.source == Some(s) by {
                        if seen_before.contains(pair_key(g, s)) {
                            let k = choose|k: int|
                                0 <= k < before.len() && (#[trigger] before[k]).0 == g
                                    && before[k].1.source == Some(s);
                            assert(processed[k] == before[k]);
                        } else {
                            lemma_pair_key_injective(g, s, group, set.source->0);
                            assert(processed[last].0 == g && processed[last].1.source == Some(s));
                        }
                    }
                    assert forall|g: u32, s: u32|
                        (exists|k: int|
                            0 <= k < processed.len() && (#[trigger] processed[k]).0 == g
                                && processed[k].1.source == Some(s)) implies seen@.contains(
                        #[trigger] pair_key(g, s),
                    ) by {
                        let k = choose|k: int|
                            0 <= k < processed.len() && (#[trigger] processed[k]).0 == g
                                && processed[k].1.source == Some(s);
                        if k < last {
                            assert(before[k] == processed[k]);
                            assert(seen_before.contains(pair_key(g, s)));
                        }
                    }
                }
                if first {
                    let ghost shown = visualizations@;
                    let mut copy = clone_visualizations(&set.visualization);
                    visualizations.append(&mut copy);
                    assert(visualization_views(visualizations@) =~= visualization_views(shown)
                        + set@.visualization);
                    assert(kept_sets(processed).drop_last() =~= kept_sets(before));
                }
                j += 1;
            }
            proof {
                assert(sets.take(m as int) =~= sets);
                assert(keyed_sets(h.take(i as int + 1)) == processed);
            }
            i += 1;
        }
        assert(h.take(n as int) =~= h);
        self.history.clear();
        assert(update_views(self.history@) =~= Seq::<VisualizationUpdateView>::empty());
        (group_count, groups, visualizations)
    }
}

} // verus!
