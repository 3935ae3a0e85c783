//! The deterministic playback scheduler: which entry a screen shows right
//! now, and for how many more milliseconds, as a pure function of the feed
//! and the wall clock. Clients without shared state stay in lockstep as
//! long as their clocks agree.

use vstd::prelude::*;
use vstd::arithmetic::div_mod::{lemma_mod_add_multiples_vanish, lemma_mod_bound};

use crate::dtos::{FeedEntryDto, FeedEntryDtoView};

verus! {

/// The sum of the entry durations, in milliseconds: the length of one full
/// cycle through the feed.
pub open spec fn total_duration(feed: Seq<FeedEntryDtoView>) -> int
    decreases feed.len(),
{
    if feed.len() == 0 {
        0
    } else {
        total_duration(feed.drop_last()) + feed.last().duration
    }
}

/// The walk step 3 of the selection algorithm: accumulate durations in feed
/// order and stop at the first entry whose cumulative elapsed time exceeds
/// the offset; the remainder until that entry's end is returned with it.
pub open spec fn select_walk(
    feed: Seq<FeedEntryDtoView>,
    offset: int,
    elapsed: int,
    i: int,
) -> Option<(int, FeedEntryDtoView)>
    decreases feed.len() - i,
{
    if i < 0 || i >= feed.len() {
        None
    } else {
        let cumulative = elapsed + feed[i].duration;
        if cumulative > offset {
            Some((cumulative - offset, feed[i]))
        } else {
            select_walk(feed, offset, cumulative, i + 1)
        }
    }
}

/// What the scheduler selects at wall-clock time `now_ms`: nothing if the
/// cycle is empty or degenerate (total duration not positive); otherwise the
/// entry at offset `now_ms mod total` into the cycle, with the milliseconds
/// remaining until its end.
pub open spec fn select_spec(feed: Seq<FeedEntryDtoView>, now_ms: int) -> Option<
    (int, FeedEntryDtoView),
> {
    let total = total_duration(feed);
    if total <= 0 {
        None
    } else {
        select_walk(feed, now_ms % total, 0, 0)
    }
}

/// How an executable selection result relates to the specification: the
/// selected entry and remainder agree, except that a remainder too large for
/// `u32` yields nothing.
pub open spec fn select_result_matches(
    feed: Seq<FeedEntryDtoView>,
    now_ms: int,
    r: Option<(u32, FeedEntryDto)>,
) -> bool {
    match select_spec(feed, now_ms) {
        None => r is None,
        Some((rem, ev)) => {
            if rem <= u32::MAX {
                match r {
                    Some((rr, re)) => rr as int == rem && re.deep_view() == ev,
                    None => false,
                }
            } else {
                r is None
            }
        },
    }
}

/// Every entry duration fits in 32 bits, so a cycle of `n` entries sums to
/// at most `n * 2^31` in magnitude.
proof fn lemma_total_duration_bound(feed: Seq<FeedEntryDtoView>)
    requires
        forall|j: int|
            0 <= j < feed.len() ==> -0x8000_0000 <= (#[trigger] feed[j]).duration < 0x8000_0000,
    ensures
        -0x8000_0000 * feed.len() <= total_duration(feed) <= 0x8000_0000 * feed.len(),
    decreases feed.len(),
{
    if feed.len() > 0 {
        let prefix = feed.drop_last();
        assert(forall|j: int|
            0 <= j < prefix.len() ==> -0x8000_0000 <= (#[trigger] prefix[j]).duration
                < 0x8000_0000);
        lemma_total_duration_bound(prefix);
    }
}

/// Selects the entry a screen should display at wall-clock time `now_ms`
/// (milliseconds since the Unix epoch) together with the milliseconds until
/// the next transition. Returns nothing when the feed's total duration is
/// not positive, or when the remainder does not fit a 32-bit timer.
pub fn select_current_entry(feed: &Vec<FeedEntryDto>, now_ms: i64) -> (r: Option<
    (u32, FeedEntryDto),
>)
    requires
        now_ms >= 0,
        feed@.len() < 0x4000_0000,
    ensures
        select_result_matches(feed.deep_view(), now_ms as int, r),
{
    let ghost dv = feed.deep_view();
    proof {
        assert(dv.len() == feed@.len());
        assert forall|j: int| 0 <= j < dv.len() implies -0x8000_0000 <= (
        #[trigger] dv[j]).duration < 0x8000_0000 by {
            assert(dv[j] == feed@[j].deep_view());
        }
    }
    let mut total: i64 = 0;
    let mut i: usize = 0;
    while i < feed.len()
        invariant
            0 <= i <= feed@.len(),
            feed@.len() < 0x4000_0000,
            dv == feed.deep_view(),
            dv.len() == feed@.len(),
            forall|j: int|
                0 <= j < dv.len() ==> -0x8000_0000 <= (#[trigger] dv[j]).duration < 0x8000_0000,
            total == total_duration(dv.subrange(0, i as int)),
            -0x8000_0000 * (i as int) <= total <= 0x8000_0000 * (i as int),
        decreases feed@.len() - i,
    {
        let ghost pre = dv.subrange(0, i as int);
        let ghost pre1 = dv.subrange(0, i as int + 1);
        proof {
            assert(pre1.drop_last() =~= pre);
            assert(pre1.last() == dv[i as int]);
            assert(dv[i as int] == feed@[i as int].deep_view());
        }
        total = total + feed[i].duration as i64;
        i = i + 1;
    }
    proof {
        assert(dv.subrange(0, dv.len() as int) =~= dv);
    }
    if total <= 0 {
        return None;
    }
    let offset: i64 = now_ms % total;
    proof {
        lemma_mod_bound(now_ms as int, total as int);
    }
    let mut elapsed: i64 = 0;
    let mut i: usize = 0;
    while i < feed.len()
        invariant
            0 <= i <= feed@.len(),
            feed@.len() < 0x4000_0000,
            dv == feed.deep_view(),
            dv.len() == feed@.len(),
            forall|j: int|
                0 <= j < dv.len() ==> -0x8000_0000 <= (#[trigger] dv[j]).duration < 0x8000_0000,
            elapsed == total_duration(dv.subrange(0, i as int)),
            -0x8000_0000 * (i as int) <= elapsed <= 0x8000_0000 * (i as int),
            0 <= offset,
            select_walk(dv, offset as int, elapsed as int, i as int) == select_spec(
                dv,
                now_ms as int,
            ),
        decreases feed@.len() - i,
    {
        let ghost pre = dv.subrange(0, i as int);
        let ghost pre1 = dv.subrange(0, i as int + 1);
        proof {
            assert(pre1.drop_last() =~= pre);
            assert(pre1.last() == dv[i as int]);
            assert(dv[i as int] == feed@[i as int].deep_view());
        }
        let cumulative = elapsed + feed[i].duration as i64;
        if cumulative > offset {
            let remaining = cumulative - offset;
            if remaining <= u32::MAX as i64 {
                return Some((remaining as u32, feed[i].clone()));
            } else {
                return None;
            }
        }
        elapsed = cumulative;
        i = i + 1;
    }
    None
}

#[verifier::external_body]
/// Relies on chrono's `Utc::now`: the current wall-clock time, read once,
/// in milliseconds since the Unix epoch.
fn now_millis() -> i64 {
    chrono::Utc::now().timestamp_millis()
}

/// Selects the entry to display right now, reading the wall clock itself:
/// the selection is the pure `select_current_entry` applied to the current
/// time (clamped to the epoch, should the clock predate it).
pub fn calculate_next_slide(feed: &Vec<FeedEntryDto>) -> (r: Option<(u32, FeedEntryDto)>)
    requires
        feed@.len() < 0x4000_0000,
    ensures
        exists|now_ms: int| now_ms >= 0 && select_result_matches(feed.deep_view(), now_ms, r),
{
    let t = now_millis();
    let now_ms: i64 = if t >= 0 {
        t
    } else {
        0
    };
    let r = select_current_entry(feed, now_ms);
    proof {
        assert(now_ms as int >= 0 && select_result_matches(feed.deep_view(), now_ms as int, r));
    }
    r
}

/// Playback periodicity: selection at `t` and at `t` plus one full cycle
/// yield the same entry and the same remainder.
pub proof fn lemma_playback_periodicity(feed: Seq<FeedEntryDtoView>, now_ms: int)
    ensures
        select_spec(feed, now_ms) == select_spec(feed, now_ms + total_duration(feed)),
{
    let total = total_duration(feed);
    if total > 0 {
        lemma_mod_add_multiples_vanish(now_ms, total);
    }
}

/// An all-zero feed has a zero-length cycle.
proof fn lemma_total_duration_all_zero(feed: Seq<FeedEntryDtoView>)
    requires
        forall|j: int| 0 <= j < feed.len() ==> (#[trigger] feed[j]).duration == 0,
    ensures
        total_duration(feed) == 0,
    decreases feed.len(),
{
    if feed.len() > 0 {
        let prefix = feed.drop_last();
        assert(forall|j: int| 0 <= j < prefix.len() ==> (#[trigger] prefix[j]).duration == 0);
        lemma_total_duration_all_zero(prefix);
    }
}

/// Playback on empty or degenerate feeds: an empty feed, and a feed whose
/// entries all have zero duration, both select nothing at every time.
pub proof fn lemma_playback_empty_degenerate(feed: Seq<FeedEntryDtoView>, now_ms: int)
    requires
        feed.len() == 0 || forall|j: int| 0 <= j < feed.len() ==> (#[trigger] feed[j]).duration == 0,
    ensures
        select_spec(feed, now_ms) is None,
{
    if feed.len() == 0 {
    } else {
        lemma_total_duration_all_zero(feed);
    }
}

/// A feed whose entries all share one duration has a cycle of exactly
/// `len * duration` milliseconds: each entry contributes its full slot.
pub proof fn lemma_uniform_duration_total(feed: Seq<FeedEntryDtoView>, duration: int)
    requires
        forall|j: int| 0 <= j < feed.len() ==> (#[trigger] feed[j]).duration == duration,
    ensures
        total_duration(feed) == feed.len() * duration,
    decreases feed.len(),
{
    if feed.len() > 0 {
        let prefix = feed.drop_last();
        assert(forall|j: int| 0 <= j < prefix.len() ==> (#[trigger] prefix[j]).duration == duration);
        lemma_uniform_duration_total(prefix, duration);
        assert(total_duration(feed) == (feed.len() - 1) * duration + duration);
        assert((feed.len() - 1) * duration + duration == feed.len() * duration) by (nonlinear_arith);
    }
}

} // verus!
