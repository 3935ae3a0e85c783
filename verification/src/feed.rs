//! The feed-computation engine: from the ordered candidate rows of one
//! screen to the ordered programme the screen cycles through.

use vstd::prelude::*;
use vstd::seq_lib::group_seq_properties;

use crate::dtos::{ContentType, FeedEntryDto, FeedEntryDtoView};

verus! {

/// One candidate row for a screen's feed, as produced by the feed query:
/// an eligible slide of an eligible group, joined with the slide's current
/// content for the target screen (absent when the slide has none there).
#[derive(Clone, Debug, PartialEq, Eq)]
pub struct FeedRow {
    pub group_id: i32,
    pub priority: i32,
    pub group_start_date: i64,
    pub slide_id: i32,
    pub slide_position: i32,
    pub content_type: Option<ContentType>,
    pub file_path: Option<String>,
}

pub ghost struct FeedRowView {
    pub group_id: int,
    pub priority: int,
    pub group_start_date: int,
    pub slide_id: int,
    pub slide_position: int,
    pub content_type: Option<ContentType>,
    pub file_path: Option<Seq<char>>,
}

impl DeepView for FeedRow {
    type V = FeedRowView;

    open spec fn deep_view(&self) -> FeedRowView {
        FeedRowView {
            group_id: self.group_id as int,
            priority: self.priority as int,
            group_start_date: self.group_start_date as int,
            slide_id: self.slide_id as int,
            slide_position: self.slide_position as int,
            content_type: self.content_type,
            file_path: self.file_path.deep_view(),
        }
    }
}

/// The entry a row yields: its content, or an image placeholder with an
/// empty path when the slide has no content on this screen.
pub open spec fn row_entry(r: FeedRowView, duration: int) -> FeedEntryDtoView {
    FeedEntryDtoView {
        content_type: match r.content_type {
            Some(ct) => ct,
            None => ContentType::Image,
        },
        file_path: match r.file_path {
            Some(p) => p,
            None => Seq::empty(),
        },
        duration: duration,
    }
}

/// The rows whose group carries exactly priority `p`.
pub open spec fn rows_with_priority(rows: Seq<FeedRowView>, p: int) -> Seq<FeedRowView> {
    rows.filter(|r: FeedRowView| r.priority == p)
}

/// One entry per row, in order.
pub open spec fn entries_of(rows: Seq<FeedRowView>, duration: int) -> Seq<FeedEntryDtoView> {
    rows.map_values(|r: FeedRowView| row_entry(r, duration))
}

/// What `compute_feed` returns: nothing for no rows; otherwise one entry, in
/// order, for every row sharing the first row's priority. As the rows come
/// sorted priority-descending, the first row's priority is the maximum
/// present, so any group with a higher priority hides all others.
pub open spec fn compute_feed_spec(rows: Seq<FeedRowView>, duration: int) -> Seq<
    FeedEntryDtoView,
> {
    if rows.len() == 0 {
        Seq::empty()
    } else {
        entries_of(rows_with_priority(rows, rows[0].priority), duration)
    }
}

fn make_entry(row: &FeedRow, duration: i32) -> (e: FeedEntryDto)
    ensures
        e.deep_view() == row_entry(row.deep_view(), duration as int),
{
    let e = FeedEntryDto {
        content_type: match &row.content_type {
            Some(ct) => *ct,
            None => ContentType::Image,
        },
        file_path: match &row.file_path {
            Some(p) => p.clone(),
            None => String::new(),
        },
        duration,
    };
    proof {
        assert(e.deep_view().file_path =~= row_entry(row.deep_view(), duration as int).file_path);
    }
    e
}

/// Derives the programme for one screen from its candidate rows: keeps only
/// the rows sharing the first row's priority (the maximum, for pre-sorted
/// rows) and emits one entry per surviving row, in the given order, each
/// displayed for `entry_duration_ms` milliseconds.
pub fn compute_feed(rows: &Vec<FeedRow>, entry_duration_ms: i32) -> (feed: Vec<FeedEntryDto>)
    ensures
        feed.deep_view() == compute_feed_spec(rows.deep_view(), entry_duration_ms as int),
{
    broadcast use group_seq_properties;

    let ghost rv = rows.deep_view();
    let ghost d = entry_duration_ms as int;
    let mut feed: Vec<FeedEntryDto> = Vec::new();
    if rows.len() == 0 {
        proof {
            assert(feed.deep_view() =~= compute_feed_spec(rv, d));
        }
        return feed;
    }
    let max_priority = rows[0].priority;
    let ghost p = rv[0].priority;
    let mut i: usize = 0;
    while i < rows.len()
        invariant
            0 <= i <= rows@.len(),
            rows@.len() == rv.len(),
            rv == rows.deep_view(),
            rv.len() > 0,
            max_priority as int == p,
            p == rv[0].priority,
            feed.deep_view() == entries_of(rows_with_priority(rv.subrange(0, i as int), p), d),
            d == entry_duration_ms as int,
        decreases rows@.len() - i,
    {
        let ghost pre = rv.subrange(0, i as int);
        let ghost pre1 = rv.subrange(0, i as int + 1);
        let ghost old_feed_view = feed.deep_view();
        if rows[i].priority == max_priority {
            let e = make_entry(&rows[i], entry_duration_ms);
            feed.push(e);
            proof {
                assert(feed.deep_view() =~= old_feed_view.push(e.deep_view()));
            }
        }
        proof {
            reveal(Seq::filter);
            assert(pre1.drop_last() =~= pre);
            assert(pre1.last() == rv[i as int]);
            if rv[i as int].priority == p {
                assert(rows_with_priority(pre1, p) == rows_with_priority(pre, p).push(
                    rv[i as int],
                ));
                assert(entries_of(rows_with_priority(pre1, p), d) =~= entries_of(
                    rows_with_priority(pre, p),
                    d,
                ).push(row_entry(rv[i as int], d)));
            } else {
                assert(rows_with_priority(pre1, p) == rows_with_priority(pre, p));
            }
        }
        i = i + 1;
    }
    proof {
        assert(rv.subrange(0, rv.len() as int) =~= rv);
        assert(feed.deep_view() == compute_feed_spec(rv, d));
    }
    feed
}

/// `p` is the maximum priority present among `rows`.
pub open spec fn is_max_priority(rows: Seq<FeedRowView>, p: int) -> bool {
    &&& exists|i: int| 0 <= i < rows.len() && rows[i].priority == p
    &&& forall|i: int| 0 <= i < rows.len() ==> rows[i].priority <= p
}

proof fn lemma_filter_elements_come_from(rows: Seq<FeedRowView>, pred: spec_fn(FeedRowView) -> bool)
    ensures
        forall|j: int|
            0 <= j < rows.filter(pred).len() ==> rows.contains(#[trigger] rows.filter(pred)[j]),
    decreases rows.len(),
{
    reveal(Seq::filter);
    if rows.len() > 0 {
        let prefix = rows.drop_last();
        lemma_filter_elements_come_from(prefix, pred);
        assert forall|j: int| 0 <= j < rows.filter(pred).len() implies rows.contains(
            #[trigger] rows.filter(pred)[j],
        ) by {
            if j < prefix.filter(pred).len() {
                assert(prefix.contains(prefix.filter(pred)[j]));
                let i = choose|i: int| 0 <= i < prefix.len() && prefix[i] == prefix.filter(pred)[j];
                assert(rows[i] == rows.filter(pred)[j]);
            } else {
                assert(rows.filter(pred)[j] == rows.last());
                assert(rows[rows.len() - 1] == rows.last());
            }
        }
    }
}

/// Priority filtering: for rows sorted priority-descending, the computed
/// feed holds exactly one entry for each row of the maximum priority
/// present, in order, and no entry for any row of lower priority.
pub proof fn lemma_priority_filtering(rows: Seq<FeedRowView>, duration: int)
    requires
        rows.len() > 0,
        forall|i: int| 0 <= i < rows.len() ==> (#[trigger] rows[i]).priority <= rows[0].priority,
    ensures
        is_max_priority(rows, rows[0].priority),
        compute_feed_spec(rows, duration) == entries_of(
            rows_with_priority(rows, rows[0].priority),
            duration,
        ),
        forall|j: int|
            0 <= j < rows_with_priority(rows, rows[0].priority).len()
                ==> #[trigger] rows_with_priority(rows, rows[0].priority)[j].priority == rows[0].priority,
        forall|i: int|
            0 <= i < rows.len() && #[trigger] rows[i].priority == rows[0].priority
                ==> compute_feed_spec(rows, duration).contains(row_entry(rows[i], duration)),
        forall|j: int|
            0 <= j < compute_feed_spec(rows, duration).len()
                ==> exists|i: int|
                0 <= i < rows.len() && rows[i].priority == rows[0].priority
                    && #[trigger] compute_feed_spec(rows, duration)[j] == row_entry(
                    rows[i],
                    duration,
                ),
{
    broadcast use vstd::seq_lib::group_filter_ensures;

    let p = rows[0].priority;
    let filtered = rows_with_priority(rows, p);
    let out = compute_feed_spec(rows, duration);
    assert(rows[0].priority == p && 0 <= 0 < rows.len());
    assert forall|i: int|
        0 <= i < rows.len() && #[trigger] rows[i].priority == p implies out.contains(
        row_entry(rows[i], duration),
    ) by {
        assert(filtered.contains(rows[i]));
        let j = choose|j: int| 0 <= j < filtered.len() && filtered[j] == rows[i];
        assert(out[j] == row_entry(rows[i], duration));
    }
    assert forall|j: int| 0 <= j < out.len() implies exists|i: int|
        0 <= i < rows.len() && rows[i].priority == p && #[trigger] out[j] == row_entry(
        rows[i],
        duration,
    ) by {
        assert(filtered[j].priority == p);
        lemma_filter_elements_come_from(rows, |r: FeedRowView| r.priority == p);
        assert(rows.contains(filtered[j]));
        let i = choose|i: int| 0 <= i < rows.len() && rows[i] == filtered[j];
        assert(out[j] == row_entry(rows[i], duration));
    }
}

/// Ordering stability: the computed feed is a function of the rows and the
/// entry duration alone — equal inputs give equal output, with no hidden
/// source of nondeterminism.
pub proof fn lemma_ordering_stability(
    rows1: Seq<FeedRowView>,
    rows2: Seq<FeedRowView>,
    duration: int,
)
    requires
        rows1 == rows2,
    ensures
        compute_feed_spec(rows1, duration) == compute_feed_spec(rows2, duration),
{
}

/// The image placeholder entry with an empty path.
pub open spec fn placeholder_entry(duration: int) -> FeedEntryDtoView {
    FeedEntryDtoView {
        content_type: ContentType::Image,
        file_path: Seq::empty(),
        duration: duration,
    }
}

/// Placeholder substitution: a top-priority row with no matching content
/// yields an image entry with an empty path; it occupies a slot like any
/// other row and carries the common entry duration.
pub proof fn lemma_placeholder_substitution(rows: Seq<FeedRowView>, duration: int, i: int)
    requires
        0 <= i < rows.len(),
        rows[i].priority == rows[0].priority,
        rows[i].content_type is None,
        rows[i].file_path is None,
    ensures
        row_entry(rows[i], duration) == placeholder_entry(duration),
        compute_feed_spec(rows, duration).contains(placeholder_entry(duration)),
{
    broadcast use vstd::seq_lib::group_filter_ensures;

    let p = rows[0].priority;
    let filtered = rows_with_priority(rows, p);
    assert(filtered.contains(rows[i]));
    let j = choose|j: int| 0 <= j < filtered.len() && filtered[j] == rows[i];
    assert(compute_feed_spec(rows, duration)[j] == row_entry(rows[i], duration));
}

/// Every entry of a computed feed carries the common entry duration.
pub proof fn lemma_feed_uniform_duration(rows: Seq<FeedRowView>, duration: int)
    ensures
        forall|j: int|
            0 <= j < compute_feed_spec(rows, duration).len()
                ==> #[trigger] compute_feed_spec(rows, duration)[j].duration == duration,
{
}

} // verus!
