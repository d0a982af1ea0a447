//! A history of timestamped entries, newest first.
//!
//! An entry is a pair of a local timestamp and a payload. A new entry goes
//! behind every entry that is strictly newer, so the timestamps never rise
//! from front to back, whatever the order of arrival. After each insertion
//! the tail that has outlived the retention window is cut off.

use std::collections::VecDeque;
use vstd::prelude::*;

verus! {

/// The timestamps of a history, front to back.
pub open spec fn stamps<T>(h: Seq<(i128, T)>) -> Seq<i128> {
    h.map_values(|e: (i128, T)| e.0)
}

/// The history with every payload replaced by its view.
pub open spec fn viewed<T: View>(h: Seq<(i128, T)>) -> Seq<(i128, T::V)> {
    h.map_values(|e: (i128, T)| (e.0, e.1@))
}

/// The length of the longest prefix whose members all satisfy `keep`.
pub open spec fn leading(stamps: Seq<i128>, keep: spec_fn(i128) -> bool) -> nat
    decreases stamps.len(),
{
    if stamps.len() == 0 || !keep(stamps.first()) {
        0
    } else {
        1 + leading(stamps.drop_first(), keep)
    }
}

/// The timestamps strictly newer than `ts`.
pub open spec fn is_newer(ts: i128) -> spec_fn(i128) -> bool {
    |s: i128| s > ts
}

/// The timestamps that at local time `now` are within `retention` of the
/// present.
pub open spec fn is_fresh(now: u64, retention: u64) -> spec_fn(i128) -> bool {
    |s: i128| now <= s + retention
}

/// Timestamps that never rise from front to back.
pub open spec fn descending(stamps: Seq<i128>) -> bool {
    forall|i: int, j: int| 0 <= i <= j < stamps.len() ==> stamps[i] >= stamps[j]
}

/// The history with the entry `(ts, item)` placed behind every leading entry
/// that is strictly newer.
pub open spec fn inserted<T>(h: Seq<(i128, T)>, ts: i128, item: T) -> Seq<(i128, T)> {
    h.insert(leading(stamps(h), is_newer(ts)) as int, (ts, item))
}

/// The history cut off before the first entry that is no longer fresh.
pub open spec fn purged<T>(h: Seq<(i128, T)>, now: u64, retention: u64) -> Seq<(i128, T)> {
    h.take(leading(stamps(h), is_fresh(now, retention)) as int)
}

/// The leading count is the length of a prefix whose members all satisfy
/// `keep` and which ends at the first member that does not.
pub proof fn lemma_leading(stamps: Seq<i128>, keep: spec_fn(i128) -> bool)
    ensures
        leading(stamps, keep) <= stamps.len(),
        forall|i: int| 0 <= i < leading(stamps, keep) ==> keep(#[trigger] stamps[i]),
        leading(stamps, keep) < stamps.len() ==> !keep(stamps[leading(stamps, keep) as int]),
    decreases stamps.len(),
{
    if stamps.len() == 0 || !keep(stamps.first()) {
    } else {
        let rest = stamps.drop_first();
        lemma_leading(rest, keep);
        assert forall|i: int| 0 <= i < leading(stamps, keep) implies keep(
            #[trigger] stamps[i],
        ) by {
            if i > 0 {
                assert(stamps[i] == rest[i - 1]);
            }
        }
        if leading(stamps, keep) < stamps.len() {
            assert(stamps[leading(stamps, keep) as int] == rest[leading(rest, keep) as int]);
        }
    }
}

/// No other prefix length has the two properties of the leading count.
pub proof fn lemma_leading_unique(stamps: Seq<i128>, keep: spec_fn(i128) -> bool, k: int)
    requires
        0 <= k <= stamps.len(),
        forall|i: int| 0 <= i < k ==> keep(#[trigger] stamps[i]),
        k < stamps.len() ==> !keep(stamps[k]),
    ensures
        leading(stamps, keep) == k,
{
    lemma_leading(stamps, keep);
    let l = leading(stamps, keep) as int;
    if l < k {
        assert(keep(stamps[l]));
    } else if k < l {
        assert(keep(stamps[k]));
    }
}

/// The timestamps of a history do not depend on how the payloads are seen.
pub proof fn lemma_stamps_of_viewed<T: View>(h: Seq<(i128, T)>)
    ensures
        stamps(viewed(h)) == stamps(h),
{
    assert(stamps(viewed(h)) =~= stamps(h));
}

/// Inserting and viewing commute.
pub proof fn lemma_viewed_inserted<T: View>(h: Seq<(i128, T)>, ts: i128, item: T)
    ensures
        viewed(inserted(h, ts, item)) == inserted(viewed(h), ts, item@),
{
    lemma_stamps_of_viewed(h);
    lemma_leading(stamps(h), is_newer(ts));
    assert(viewed(inserted(h, ts, item)) =~= inserted(viewed(h), ts, item@));
}

/// Cutting the tail off and viewing commute.
pub proof fn lemma_viewed_purged<T: View>(h: Seq<(i128, T)>, now: u64, retention: u64)
    ensures
        viewed(purged(h, now, retention)) == purged(viewed(h), now, retention),
{
    lemma_stamps_of_viewed(h);
    lemma_leading(stamps(h), is_fresh(now, retention));
    assert(viewed(purged(h, now, retention)) =~= purged(viewed(h), now, retention));
}

/// Inserting keeps the history in order.
pub proof fn lemma_inserted_descending<T>(h: Seq<(i128, T)>, ts: i128, item: T)
    requires
        descending(stamps(h)),
    ensures
        descending(stamps(inserted(h, ts, item))),
{
    let s = stamps(h);
    lemma_leading(s, is_newer(ts));
    let k = leading(s, is_newer(ts)) as int;
    let out = stamps(inserted(h, ts, item));
    assert forall|i: int, j: int| 0 <= i <= j < out.len() implies out[i] >= out[j] by {
        if j < k {
            assert(out[i] == s[i] && out[j] == s[j]);
        } else if j == k {
            if i < k {
                assert(out[i] == s[i]);
                assert(is_newer(ts)(s[i]));
            }
        } else {
            assert(out[j] == s[j - 1]);
            if k < s.len() {
                assert(!is_newer(ts)(s[k]));
                assert(s[k] >= s[j - 1]);
            }
            if i < k {
                assert(out[i] == s[i]);
            } else if i > k {
                assert(out[i] == s[i - 1]);
            }
        }
    }
}

/// In an ordered history a new entry goes behind every entry that is
/// strictly newer: each of them stays where it was, in front of it.
pub proof fn lemma_inserted_behind_newer<T>(h: Seq<(i128, T)>, ts: i128, item: T, i: int)
    requires
        descending(stamps(h)),
        0 <= i < h.len(),
        h[i].0 > ts,
    ensures
        i < leading(stamps(h), is_newer(ts)),
        inserted(h, ts, item)[i] == h[i],
        inserted(h, ts, item)[leading(stamps(h), is_newer(ts)) as int] == (ts, item),
{
    let s = stamps(h);
    lemma_leading(s, is_newer(ts));
    let k = leading(s, is_newer(ts)) as int;
    if k <= i {
        assert(!is_newer(ts)(s[k]));
        assert(s[k] >= s[i]);
    }
}

/// Cutting the tail off keeps the history in order.
pub proof fn lemma_purged_descending<T>(h: Seq<(i128, T)>, now: u64, retention: u64)
    requires
        descending(stamps(h)),
    ensures
        descending(stamps(purged(h, now, retention))),
{
    let s = stamps(h);
    lemma_leading(s, is_fresh(now, retention));
    let out = stamps(purged(h, now, retention));
    assert forall|i: int, j: int| 0 <= i <= j < out.len() implies out[i] >= out[j] by {
        assert(out[i] == s[i] && out[j] == s[j]);
    }
}

/// Every entry that is left after the cut is fresh.
pub proof fn lemma_purged_fresh<T>(h: Seq<(i128, T)>, now: u64, retention: u64, i: int)
    requires
        0 <= i < purged(h, now, retention).len(),
    ensures
        now <= purged(h, now, retention)[i].0 + retention,
        purged(h, now, retention)[i] == h[i],
{
    let s = stamps(h);
    lemma_leading(s, is_fresh(now, retention));
    assert(is_fresh(now, retention)(s[i]));
}

/// In an ordered history the cut takes nothing that is fresh: every fresh
/// entry is left where it was.
pub proof fn lemma_purge_keeps_fresh<T>(h: Seq<(i128, T)>, now: u64, retention: u64, i: int)
    requires
        descending(stamps(h)),
        0 <= i < h.len(),
        now <= h[i].0 + retention,
    ensures
        i < purged(h, now, retention).len(),
        purged(h, now, retention)[i] == h[i],
{
    let s = stamps(h);
    lemma_leading(s, is_fresh(now, retention));
    let k = leading(s, is_fresh(now, retention)) as int;
    if k <= i {
        assert(!is_fresh(now, retention)(s[k]));
        assert(s[k] >= s[i]);
    }
}

/// Places the entry `(ts, item)` behind every leading entry that is strictly
/// newer.
pub fn insert_ordered<T: View>(history: &mut VecDeque<(i128, T)>, ts: i128, item: T)
    ensures
        final(history)@ == inserted(old(history)@, ts, item),
        viewed(final(history)@) == inserted(viewed(old(history)@), ts, item@),
{
    proof {
        lemma_viewed_inserted(history@, ts, item);
    }
    let n = history.len();
    let mut i: usize = 0;
    loop
        invariant_except_break
            i <= n,
        invariant
            n == history@.len(),
            history@ == old(history)@,
            forall|k: int| 0 <= k < i ==> history@[k].0 > ts,
        ensures
            i <= n,
            i < n ==> history@[i as int].0 <= ts,
        decreases n - i,
    {
        if i >= n {
            break ;
        }
        if history[i].0 <= ts {
            break ;
        }
        i += 1;
    }
    proof {
        let s = stamps(history@);
        assert forall|k: int| 0 <= k < i implies is_newer(ts)(#[trigger] s[k]) by {}
        lemma_leading_unique(s, is_newer(ts), i as int);
    }
    history.insert(i, (ts, item));
}

/// Cuts the history off before the first entry that at local time `now` has
/// outlived `retention`.
pub fn purge_stale<T: View>(history: &mut VecDeque<(i128, T)>, now: u64, retention: u64)
    ensures
        final(history)@ == purged(old(history)@, now, retention),
        viewed(final(history)@) == purged(viewed(old(history)@), now, retention),
{
    proof {
        lemma_viewed_purged(history@, now, retention);
    }
    let n = history.len();
    let mut i: usize = 0;
    loop
        invariant_except_break
            i <= n,
        invariant
            n == history@.len(),
            history@ == old(history)@,
            forall|k: int| 0 <= k < i ==> now <= history@[k].0 + retention,
        ensures
            i <= n,
            i < n ==> now > history@[i as int].0 + retention,
        decreases n - i,
    {
        if i >= n {
            break ;
        }
        if history[i].0 < now as i128 - retention as i128 {
            break ;
        }
        i += 1;
    }
    proof {
        let s = stamps(history@);
        assert forall|k: int| 0 <= k < i implies is_fresh(now, retention)(#[trigger] s[k]) by {}
        lemma_leading_unique(s, is_fresh(now, retention), i as int);
    }
    history.truncate(i);
}

} // verus!
