//! Read-only projections of the store: screen listings, slide-group
//! listings for the admin surface, and the feed query for one screen.

use vstd::prelude::*;
use vstd::seq_lib::group_to_multiset_ensures;

use crate::domain::{group_eligible, Archival, Content, Screen, Slide, SlideGroup};
use crate::dtos::{ContentDto, ScreenDto, SlideDto, SlideGroupDto};
use crate::error::AppError;
use crate::feed::FeedRow;
use crate::sort::{insertion_sort, Ordered};
use crate::store::{content_active_for, SignageStore};

verus! {

impl Ordered for Screen {
    /// Display order: by position, ties broken by id.
    open spec fn le(self, other: Self) -> bool {
        self.position < other.position || (self.position == other.position && self.id <= other.id)
    }

    proof fn lemma_le_total(a: Self, b: Self) {
    }

    proof fn lemma_le_trans(a: Self, b: Self, c: Self) {
    }

    fn le_exec(&self, other: &Self) -> (r: bool) {
        self.position < other.position || (self.position == other.position && self.id <= other.id)
    }

    fn copy_val(&self) -> (r: Self) {
        self.clone()
    }
}

impl Ordered for Slide {
    /// Rotation order within a group: by position, ties broken by id.
    open spec fn le(self, other: Self) -> bool {
        self.position < other.position || (self.position == other.position && self.id <= other.id)
    }

    proof fn lemma_le_total(a: Self, b: Self) {
    }

    proof fn lemma_le_trans(a: Self, b: Self, c: Self) {
    }

    fn le_exec(&self, other: &Self) -> (r: bool) {
        self.position < other.position || (self.position == other.position && self.id <= other.id)
    }

    fn copy_val(&self) -> (r: Self) {
        *self
    }
}

impl Ordered for FeedRow {
    /// Feed order: priority descending, then group id, slide position and
    /// slide id ascending.
    open spec fn le(self, other: Self) -> bool {
        if self.priority != other.priority {
            self.priority > other.priority
        } else if self.group_id != other.group_id {
            self.group_id < other.group_id
        } else if self.slide_position != other.slide_position {
            self.slide_position < other.slide_position
        } else {
            self.slide_id <= other.slide_id
        }
    }

    proof fn lemma_le_total(a: Self, b: Self) {
    }

    proof fn lemma_le_trans(a: Self, b: Self, c: Self) {
    }

    fn le_exec(&self, other: &Self) -> (r: bool) {
        if self.priority != other.priority {
            self.priority > other.priority
        } else if self.group_id != other.group_id {
            self.group_id < other.group_id
        } else if self.slide_position != other.slide_position {
            self.slide_position < other.slide_position
        } else {
            self.slide_id <= other.slide_id
        }
    }

    fn copy_val(&self) -> (r: Self) {
        FeedRow {
            group_id: self.group_id,
            priority: self.priority,
            group_start_date: self.group_start_date,
            slide_id: self.slide_id,
            slide_position: self.slide_position,
            content_type: self.content_type,
            file_path: match &self.file_path {
                Some(p) => Some(p.clone()),
                None => None,
            },
        }
    }
}

/// The nullable-timestamp form of the lifecycle, as rows report it.
pub open spec fn archive_date_of(a: Archival) -> Option<i64> {
    match a {
        Archival::Active => None,
        Archival::Archived(t) => Some(t),
    }
}

fn archive_date_field(a: &Archival) -> (r: Option<i64>)
    ensures
        r == archive_date_of(*a),
{
    match a {
        Archival::Active => None,
        Archival::Archived(t) => Some(*t),
    }
}

/// The content dto carries exactly the content row's fields.
pub open spec fn content_dto_matches(c: Content, d: ContentDto) -> bool {
    &&& d.id == c.id
    &&& d.screen == c.screen
    &&& d.content_type == c.content_type
    &&& d.file_path == c.file_path
    &&& d.archive_date == archive_date_of(c.archive)
}

/// The content rows reported for one slide: those attached to it, all of
/// them or only the active ones, in store (id) order.
pub open spec fn slide_contents_of(contents: Seq<Content>, slide_id: int, hide_archived: bool) -> Seq<Content> {
    contents.filter(
        |c: Content| c.slide == slide_id && (!hide_archived || c.archive is Active),
    )
}

/// The slide dto carries the slide's fields and its reported content rows,
/// in order.
pub open spec fn slide_dto_matches(
    contents: Seq<Content>,
    s: Slide,
    d: SlideDto,
    hide_archived: bool,
) -> bool {
    &&& d.id == s.id
    &&& d.position == s.position
    &&& d.archive_date == archive_date_of(s.archive)
    &&& d.content@.len() == slide_contents_of(contents, s.id as int, hide_archived).len()
    &&& forall|q: int|
        0 <= q < d.content@.len() ==> content_dto_matches(
            slide_contents_of(contents, s.id as int, hide_archived)[q],
            #[trigger] d.content@[q],
        )
}

/// The slides reported for one group: those belonging to it, all of them
/// or only the active ones, in store (id) order.
pub open spec fn group_slides_of(slides: Seq<Slide>, gid: int, hide_archived: bool) -> Seq<Slide> {
    slides.filter(|s: Slide| s.group == gid && (!hide_archived || s.archive is Active))
}

/// `d` reports one of the group's slides.
pub open spec fn dto_slide_from(
    slides: Seq<Slide>,
    contents: Seq<Content>,
    gid: int,
    hide_archived: bool,
    d: SlideDto,
) -> bool {
    exists|i: int|
        {
            &&& 0 <= i < slides.len()
            &&& (#[trigger] slides[i]).group == gid
            &&& (!hide_archived || slides[i].archive is Active)
            &&& slide_dto_matches(contents, slides[i], d, hide_archived)
        }
}

/// The slide at index `i` is reported somewhere in `r`.
pub open spec fn slide_listed(slides: Seq<Slide>, r: Seq<SlideDto>, i: int) -> bool {
    exists|k: int| 0 <= k < r.len() && (#[trigger] r[k]).id == slides[i].id
}

/// The group dto carries the group's own fields and reports exactly the
/// group's (visible) slides, ordered by position then id.
pub open spec fn slide_group_dto_matches(
    slides: Seq<Slide>,
    contents: Seq<Content>,
    g: SlideGroup,
    d: SlideGroupDto,
    hide_archived: bool,
) -> bool {
    &&& d.id == g.id
    &&& d.title == g.title
    &&& d.priority == g.priority
    &&& d.hidden == g.hidden
    &&& d.created_by == g.created_by
    &&& d.start_date == g.start_date
    &&& d.end_date == g.end_date
    &&& d.archive_date == archive_date_of(g.archive)
    &&& d.published == g.published
    &&& d.slides@.len() == group_slides_of(slides, g.id as int, hide_archived).len()
    &&& forall|a: int, b: int|
        0 <= a < b < d.slides@.len() ==> (d.slides@[a].position < d.slides@[b].position || (
        d.slides@[a].position == d.slides@[b].position && d.slides@[a].id <= d.slides@[b].id))
    &&& forall|k: int|
        0 <= k < d.slides@.len() ==> dto_slide_from(
            slides,
            contents,
            g.id as int,
            hide_archived,
            #[trigger] d.slides@[k],
        )
    &&& forall|i: int|
        0 <= i < slides.len() && (#[trigger] slides[i]).group == g.id && (!hide_archived
            || slides[i].archive is Active) ==> slide_listed(slides, d.slides@, i)
}

/// The screen dto carries exactly the screen's fields.
pub open spec fn screen_dto_matches(s: Screen, d: ScreenDto) -> bool {
    &&& d.id == s.id
    &&& d.name == s.name
    &&& d.position == s.position
}

/// `d` reports one of the screens.
pub open spec fn dto_from_screens(screens: Seq<Screen>, d: ScreenDto) -> bool {
    exists|i: int| 0 <= i < screens.len() && screen_dto_matches(#[trigger] screens[i], d)
}

/// The screen at index `i` is reported somewhere in `r`.
pub open spec fn screen_listed(screens: Seq<Screen>, r: Seq<ScreenDto>, i: int) -> bool {
    exists|k: int| 0 <= k < r.len() && screen_dto_matches(screens[i], #[trigger] r[k])
}

proof fn lemma_filter_members<T>(s: Seq<T>, pred: spec_fn(T) -> bool)
    ensures
        forall|j: int| 0 <= j < s.filter(pred).len() ==> s.contains(#[trigger] s.filter(pred)[j]),
    decreases s.len(),
{
    reveal(Seq::filter);
    if s.len() > 0 {
        let prefix = s.drop_last();
        lemma_filter_members(prefix, pred);
        assert forall|j: int| 0 <= j < s.filter(pred).len() implies s.contains(
            #[trigger] s.filter(pred)[j],
        ) by {
            if j < prefix.filter(pred).len() {
                assert(prefix.contains(prefix.filter(pred)[j]));
                let i = choose|i: int| 0 <= i < prefix.len() && prefix[i] == prefix.filter(pred)[j];
                assert(s[i] == s.filter(pred)[j]);
            } else {
                assert(s.filter(pred)[j] == s.last());
                assert(s[s.len() - 1] == s.last());
            }
        }
    }
}

impl SignageStore {
    /// Lists all screens in display order (position, then id).
    pub fn list_screens(&self) -> (r: Vec<ScreenDto>)
        ensures
            r@.len() == self.screens@.len(),
            forall|a: int, b: int|
                0 <= a < b < r@.len() ==> (r@[a].position < r@[b].position || (r@[a].position
                    == r@[b].position && r@[a].id <= r@[b].id)),
            forall|k: int| 0 <= k < r@.len() ==> dto_from_screens(self.screens@, #[trigger] r@[k]),
            forall|i: int| 0 <= i < self.screens@.len() ==> screen_listed(self.screens@, r@, i),
    {
        broadcast use group_to_multiset_ensures;

        let sorted = insertion_sort(&self.screens);
        let mut r: Vec<ScreenDto> = Vec::new();
        let mut k: usize = 0;
        while k < sorted.len()
            invariant
                0 <= k <= sorted@.len(),
                r@.len() == k,
                forall|q: int|
                    0 <= q < k ==> screen_dto_matches(sorted@[q], #[trigger] r@[q]),
            decreases sorted@.len() - k,
        {
            let s = &sorted[k];
            r.push(ScreenDto { id: s.id, name: s.name.clone(), position: s.position });
            k = k + 1;
        }
        proof {
            assert forall|a: int, b: int| 0 <= a < b < r@.len() implies (r@[a].position
                < r@[b].position || (r@[a].position == r@[b].position && r@[a].id <= r@[b].id)) by {
                assert(sorted@[a].le(sorted@[b]));
                assert(screen_dto_matches(sorted@[a], r@[a]));
                assert(screen_dto_matches(sorted@[b], r@[b]));
            }
            assert forall|k2: int| 0 <= k2 < r@.len() implies dto_from_screens(
                self.screens@,
                #[trigger] r@[k2],
            ) by {
                assert(sorted@.contains(sorted@[k2]));
                assert(self.screens@.to_multiset().contains(sorted@[k2]));
                assert(self.screens@.contains(sorted@[k2]));
                let i = choose|i: int|
                    0 <= i < self.screens@.len() && self.screens@[i] == sorted@[k2];
                assert(screen_dto_matches(self.screens@[i], r@[k2]));
            }
            assert forall|i: int| 0 <= i < self.screens@.len() implies screen_listed(
                self.screens@,
                r@,
                i,
            ) by {
                assert(self.screens@.contains(self.screens@[i]));
                assert(sorted@.to_multiset().contains(self.screens@[i]));
                assert(sorted@.contains(self.screens@[i]));
                let k2 = choose|k2: int|
                    0 <= k2 < sorted@.len() && sorted@[k2] == self.screens@[i];
                assert(screen_dto_matches(self.screens@[i], r@[k2]));
            }
        }
        r
    }

    /// The content rows reported for one slide, in store order.
    fn contents_for_slide(&self, slide_id: i32, hide_archived: bool) -> (r: Vec<ContentDto>)
        ensures
            r@.len() == slide_contents_of(self.contents@, slide_id as int, hide_archived).len(),
            forall|q: int|
                0 <= q < r@.len() ==> content_dto_matches(
                    slide_contents_of(self.contents@, slide_id as int, hide_archived)[q],
                    #[trigger] r@[q],
                ),
    {
        let mut r: Vec<ContentDto> = Vec::new();
        let mut j: usize = 0;
        while j < self.contents.len()
            invariant
                0 <= j <= self.contents@.len(),
                r@.len() == slide_contents_of(
                    self.contents@.subrange(0, j as int),
                    slide_id as int,
                    hide_archived,
                ).len(),
                forall|q: int|
                    0 <= q < r@.len() ==> content_dto_matches(
                        slide_contents_of(
                            self.contents@.subrange(0, j as int),
                            slide_id as int,
                            hide_archived,
                        )[q],
                        #[trigger] r@[q],
                    ),
            decreases self.contents@.len() - j,
        {
            let ghost pre = self.contents@.subrange(0, j as int);
            let ghost pre1 = self.contents@.subrange(0, j as int + 1);
            let c = &self.contents[j];
            if c.slide == slide_id && (!hide_archived || !c.archive.is_archived()) {
                r.push(
                    ContentDto {
                        id: c.id,
                        screen: c.screen,
                        content_type: c.content_type,
                        file_path: c.file_path.clone(),
                        archive_date: archive_date_field(&c.archive),
                    },
                );
            }
            proof {
                reveal(Seq::filter);
                assert(pre1.drop_last() =~= pre);
                assert(pre1.last() == self.contents@[j as int]);
            }
            j = j + 1;
        }
        proof {
            assert(self.contents@.subrange(0, self.contents@.len() as int) =~= self.contents@);
        }
        r
    }

    /// Projects one group with its slides (and their content rows) into the
    /// admin dto, the slides ordered by position then id. With
    /// `hide_archived`, archived slides and content rows are left out.
    pub fn slide_group_to_dto(&self, group: &SlideGroup, hide_archived: bool) -> (d: SlideGroupDto)
        requires
            self.wf(),
        ensures
            slide_group_dto_matches(self.slides@, self.contents@, *group, d, hide_archived),
    {
        broadcast use group_to_multiset_ensures;
        broadcast use vstd::seq_lib::group_filter_ensures;

        let ghost gid = group.id as int;
        let ghost whole_filter = group_slides_of(self.slides@, gid, hide_archived);
        let mut picked: Vec<Slide> = Vec::new();
        let mut i: usize = 0;
        while i < self.slides.len()
            invariant
                0 <= i <= self.slides@.len(),
                gid == group.id as int,
                picked@ == group_slides_of(
                    self.slides@.subrange(0, i as int),
                    gid,
                    hide_archived,
                ),
            decreases self.slides@.len() - i,
        {
            let ghost pre = self.slides@.subrange(0, i as int);
            let ghost pre1 = self.slides@.subrange(0, i as int + 1);
            let s = self.slides[i];
            if s.group == group.id && (!hide_archived || !s.archive.is_archived()) {
                picked.push(s);
            }
            proof {
                reveal(Seq::filter);
                assert(pre1.drop_last() =~= pre);
                assert(pre1.last() == self.slides@[i as int]);
            }
            i = i + 1;
        }
        proof {
            assert(self.slides@.subrange(0, self.slides@.len() as int) =~= self.slides@);
            assert(picked@ == whole_filter);
        }
        let sorted = insertion_sort(&picked);
        let mut out: Vec<SlideDto> = Vec::new();
        let mut k: usize = 0;
        while k < sorted.len()
            invariant
                0 <= k <= sorted@.len(),
                out@.len() == k,
                forall|q: int|
                    0 <= q < k ==> slide_dto_matches(
                        self.contents@,
                        sorted@[q],
                        #[trigger] out@[q],
                        hide_archived,
                    ),
            decreases sorted@.len() - k,
        {
            let s = sorted[k];
            let content = self.contents_for_slide(s.id, hide_archived);
            out.push(
                SlideDto {
                    id: s.id,
                    position: s.position,
                    archive_date: archive_date_field(&s.archive),
                    content,
                },
            );
            k = k + 1;
        }
        let d = SlideGroupDto {
            id: group.id,
            title: group.title.clone(),
            priority: group.priority,
            hidden: group.hidden,
            created_by: group.created_by.clone(),
            start_date: group.start_date,
            end_date: group.end_date,
            archive_date: archive_date_field(&group.archive),
            published: group.published,
            slides: out,
        };
        proof {
            let slides_dto = d.slides@;
            assert forall|a: int, b: int| 0 <= a < b < slides_dto.len() implies (
            slides_dto[a].position < slides_dto[b].position || (slides_dto[a].position
                == slides_dto[b].position && slides_dto[a].id <= slides_dto[b].id)) by {
                assert(sorted@[a].le(sorted@[b]));
                assert(slide_dto_matches(self.contents@, sorted@[a], slides_dto[a], hide_archived));
                assert(slide_dto_matches(self.contents@, sorted@[b], slides_dto[b], hide_archived));
            }
            assert forall|k2: int| 0 <= k2 < slides_dto.len() implies dto_slide_from(
                self.slides@,
                self.contents@,
                gid,
                hide_archived,
                #[trigger] slides_dto[k2],
            ) by {
                assert(sorted@.contains(sorted@[k2]));
                assert(whole_filter.to_multiset().contains(sorted@[k2]));
                assert(whole_filter.contains(sorted@[k2]));
                let f = choose|f: int| 0 <= f < whole_filter.len() && whole_filter[f] == sorted@[k2];
                lemma_filter_members(
                    self.slides@,
                    |s: Slide| s.group == gid && (!hide_archived || s.archive is Active),
                );
                assert(self.slides@.contains(whole_filter[f]));
                let i2 = choose|i2: int|
                    0 <= i2 < self.slides@.len() && self.slides@[i2] == whole_filter[f];
                assert(whole_filter[f].group == gid && (!hide_archived || whole_filter[f].archive
                    is Active));
                assert(slide_dto_matches(
                    self.contents@,
                    self.slides@[i2],
                    slides_dto[k2],
                    hide_archived,
                ));
            }
            assert forall|i2: int|
                0 <= i2 < self.slides@.len() && (#[trigger] self.slides@[i2]).group == group.id && (
                !hide_archived || self.slides@[i2].archive is Active) implies slide_listed(
                self.slides@,
                slides_dto,
                i2,
            ) by {
                assert(whole_filter.contains(self.slides@[i2]));
                assert(sorted@.to_multiset().contains(self.slides@[i2]));
                assert(sorted@.contains(self.slides@[i2]));
                let k2 = choose|k2: int| 0 <= k2 < sorted@.len() && sorted@[k2] == self.slides@[i2];
                assert(slide_dto_matches(
                    self.contents@,
                    sorted@[k2],
                    slides_dto[k2],
                    hide_archived,
                ));
                assert(slides_dto[k2].id == self.slides@[i2].id);
            }
        }
        d
    }

    /// Fetches one group with its active slides and content, archived or
    /// not; missing groups are reported as not found.
    pub fn get_slide_group(&self, id: i32) -> (r: Result<SlideGroupDto, AppError>)
        requires
            self.wf(),
        ensures
            match r {
                Ok(d) => exists|i: int|
                    0 <= i < self.groups@.len() && (#[trigger] self.groups@[i]).id == id
                        && slide_group_dto_matches(
                        self.slides@,
                        self.contents@,
                        self.groups@[i],
                        d,
                        true,
                    ),
                Err(AppError::SlideGroupNotFound) => !self.has_group(id as int),
                Err(_) => false,
            },
    {
        let mut i: usize = 0;
        while i < self.groups.len()
            invariant
                self.wf(),
                0 <= i <= self.groups@.len(),
                forall|k: int| 0 <= k < i ==> (#[trigger] self.groups@[k]).id != id,
            decreases self.groups@.len() - i,
        {
            if self.groups[i].id == id {
                let d = self.slide_group_to_dto(&self.groups[i], true);
                return Ok(d);
            }
            i = i + 1;
        }
        Err(AppError::SlideGroupNotFound)
    }

    /// Lists every non-archived group, in id order, each with its active
    /// slides and content.
    pub fn list_slide_groups(&self) -> (r: Vec<SlideGroupDto>)
        requires
            self.wf(),
        ensures
            r@.len() == self.groups@.filter(|g: SlideGroup| g.archive is Active).len(),
            forall|k: int|
                0 <= k < r@.len() ==> slide_group_dto_matches(
                    self.slides@,
                    self.contents@,
                    self.groups@.filter(|g: SlideGroup| g.archive is Active)[k],
                    #[trigger] r@[k],
                    true,
                ),
    {
        let mut r: Vec<SlideGroupDto> = Vec::new();
        let mut i: usize = 0;
        while i < self.groups.len()
            invariant
                self.wf(),
                0 <= i <= self.groups@.len(),
                r@.len() == self.groups@.subrange(0, i as int).filter(
                    |g: SlideGroup| g.archive is Active,
                ).len(),
                forall|k: int|
                    0 <= k < r@.len() ==> slide_group_dto_matches(
                        self.slides@,
                        self.contents@,
                        self.groups@.subrange(0, i as int).filter(
                            |g: SlideGroup| g.archive is Active,
                        )[k],
                        #[trigger] r@[k],
                        true,
                    ),
            decreases self.groups@.len() - i,
        {
            let ghost pre = self.groups@.subrange(0, i as int);
            let ghost pre1 = self.groups@.subrange(0, i as int + 1);
            if !self.groups[i].archive.is_archived() {
                let d = self.slide_group_to_dto(&self.groups[i], true);
                r.push(d);
            }
            proof {
                reveal(Seq::filter);
                assert(pre1.drop_last() =~= pre);
                assert(pre1.last() == self.groups@[i as int]);
            }
            i = i + 1;
        }
        proof {
            assert(self.groups@.subrange(0, self.groups@.len() as int) =~= self.groups@);
        }
        r
    }

    /// A slide belongs in a screen's feed exactly when it is active and its
    /// group exists and is eligible for display at `now`.
    pub open spec fn slide_feed_eligible(self, s: Slide, now: int) -> bool {
        &&& s.archive is Active
        &&& exists|g: int|
            0 <= g < self.groups@.len() && (#[trigger] self.groups@[g]).id == s.group
                && group_eligible(self.groups@[g], now)
    }

    /// The slides that belong in a feed at `now`, in store order.
    pub open spec fn eligible_slides(self, now: int) -> Seq<Slide> {
        self.slides@.filter(|s: Slide| self.slide_feed_eligible(s, now))
    }

    /// Some active content row exists for this (slide, screen) pair.
    pub open spec fn has_active_content(self, slide_id: int, screen: int) -> bool {
        exists|ci: int|
            0 <= ci < self.contents@.len() && content_active_for(
                #[trigger] self.contents@[ci],
                slide_id,
                screen,
            )
    }

    /// The row reports the pair's active content, or nothing when the
    /// slide has no content on this screen.
    pub open spec fn row_content_matches(self, slide_id: int, screen: int, row: FeedRow) -> bool {
        if self.has_active_content(slide_id, screen) {
            exists|ci: int|
                {
                    &&& 0 <= ci < self.contents@.len()
                    &&& content_active_for(#[trigger] self.contents@[ci], slide_id, screen)
                    &&& row.content_type == Some(self.contents@[ci].content_type)
                    &&& row.file_path == Some(self.contents@[ci].file_path)
                }
        } else {
            row.content_type is None && row.file_path is None
        }
    }

    /// The row reports the slide at index `i` (an eligible one), its
    /// group's priority and window, and its content for the screen.
    pub open spec fn feed_row_matches(self, i: int, screen: int, now: int, row: FeedRow) -> bool {
        &&& 0 <= i < self.slides@.len()
        &&& self.slide_feed_eligible(self.slides@[i], now)
        &&& row.slide_id == self.slides@[i].id
        &&& row.slide_position == self.slides@[i].position
        &&& exists|g: int|
            {
                &&& 0 <= g < self.groups@.len()
                &&& (#[trigger] self.groups@[g]).id == self.slides@[i].group
                &&& row.group_id == self.groups@[g].id
                &&& row.priority == self.groups@[g].priority
                &&& row.group_start_date == self.groups@[g].start_date
            }
        &&& self.row_content_matches(self.slides@[i].id as int, screen, row)
    }

    /// The row reports one of the store's eligible slides.
    pub open spec fn row_from_store(self, screen: int, now: int, row: FeedRow) -> bool {
        exists|i: int| #[trigger] self.feed_row_matches(i, screen, now, row)
    }

    /// The slide at index `i` is reported by some row.
    pub open spec fn slide_row_listed(slides: Seq<Slide>, rows: Seq<FeedRow>, i: int) -> bool {
        exists|k: int| 0 <= k < rows.len() && (#[trigger] rows[k]).slide_id == slides[i].id
    }

    fn find_active_content(&self, slide_id: i32, screen: i32) -> (r: Option<usize>)
        ensures
            match r {
                Some(ci) => ci < self.contents@.len() && content_active_for(
                    self.contents@[ci as int],
                    slide_id as int,
                    screen as int,
                ),
                None => !self.has_active_content(slide_id as int, screen as int),
            },
    {
        let mut ci: usize = 0;
        while ci < self.contents.len()
            invariant
                0 <= ci <= self.contents@.len(),
                forall|q: int|
                    0 <= q < ci ==> !content_active_for(
                        #[trigger] self.contents@[q],
                        slide_id as int,
                        screen as int,
                    ),
            decreases self.contents@.len() - ci,
        {
            let c = &self.contents[ci];
            if !c.archive.is_archived() && c.slide == slide_id && c.screen == screen {
                return Some(ci);
            }
            ci = ci + 1;
        }
        None
    }

    /// The feed query: one candidate row per eligible slide of the screen,
    /// ordered by priority descending, then group id, slide position and
    /// slide id ascending. A slide without content on this screen yields a
    /// row with no content (the engine renders it as a placeholder).
    pub fn feed_query(&self, screen: i32, now_ms: i64) -> (rows: Vec<FeedRow>)
        requires
            self.wf(),
        ensures
            rows@.len() == self.eligible_slides(now_ms as int).len(),
            forall|a: int, b: int|
                0 <= a < b < rows@.len() ==> (#[trigger] rows@[a]).le(#[trigger] rows@[b]),
            forall|k: int|
                0 <= k < rows@.len() ==> self.row_from_store(
                    screen as int,
                    now_ms as int,
                    #[trigger] rows@[k],
                ),
            forall|i: int|
                0 <= i < self.slides@.len() && self.slide_feed_eligible(
                    #[trigger] self.slides@[i],
                    now_ms as int,
                ) ==> Self::slide_row_listed(self.slides@, rows@, i),
    {
        broadcast use group_to_multiset_ensures;
        broadcast use vstd::seq_lib::group_filter_ensures;

        let ghost nowi = now_ms as int;
        let ghost pred = |s: Slide| self.slide_feed_eligible(s, nowi);
        let mut gathered: Vec<FeedRow> = Vec::new();
        let mut i: usize = 0;
        while i < self.slides.len()
            invariant
                self.wf(),
                0 <= i <= self.slides@.len(),
                nowi == now_ms as int,
                pred == (|s: Slide| self.slide_feed_eligible(s, nowi)),
                gathered@.len() == self.slides@.subrange(0, i as int).filter(pred).len(),
                forall|k: int|
                    0 <= k < gathered@.len() ==> self.row_from_store(
                        screen as int,
                        nowi,
                        #[trigger] gathered@[k],
                    ),
                forall|q: int|
                    0 <= q < i && self.slide_feed_eligible(#[trigger] self.slides@[q], nowi)
                        ==> Self::slide_row_listed(self.slides@, gathered@, q),
            decreases self.slides@.len() - i,
        {
            let ghost pre = self.slides@.subrange(0, i as int);
            let ghost pre1 = self.slides@.subrange(0, i as int + 1);
            let ghost old_gathered = gathered@;
            let s = self.slides[i];
            if !s.archive.is_archived() {
                match self.find_group_index(s.group) {
                    Some(g) => {
                        let grp = &self.groups[g];
                        if crate::domain::check_group_eligible(grp, now_ms) {
                            let row = match self.find_active_content(s.id, screen) {
                                Some(ci) => {
                                    let c = &self.contents[ci];
                                    FeedRow {
                                        group_id: grp.id,
                                        priority: grp.priority,
                                        group_start_date: grp.start_date,
                                        slide_id: s.id,
                                        slide_position: s.position,
                                        content_type: Some(c.content_type),
                                        file_path: Some(c.file_path.clone()),
                                    }
                                },
                                None => FeedRow {
                                    group_id: grp.id,
                                    priority: grp.priority,
                                    group_start_date: grp.start_date,
                                    slide_id: s.id,
                                    slide_position: s.position,
                                    content_type: None,
                                    file_path: None,
                                },
                            };
                            proof {
                                assert(self.slide_feed_eligible(s, nowi));
                                assert(self.feed_row_matches(i as int, screen as int, nowi, row));
                            }
                            gathered.push(row);
                        } else {
                            proof {
                                assert forall|g2: int|
                                    0 <= g2 < self.groups@.len() && (
                                    #[trigger] self.groups@[g2]).id == s.group implies g2
                                    == g as int by {
                                    if g2 < g as int {
                                        assert(self.groups@[g2].id < self.groups@[g as int].id);
                                    } else if g2 > g as int {
                                        assert(self.groups@[g as int].id < self.groups@[g2].id);
                                    }
                                }
                                assert(!self.slide_feed_eligible(s, nowi));
                            }
                        }
                    },
                    None => {
                        proof {
                            assert(!self.slide_feed_eligible(s, nowi));
                        }
                    },
                }
            }
            proof {
                reveal(Seq::filter);
                assert(pre1.drop_last() =~= pre);
                assert(pre1.last() == self.slides@[i as int]);
                assert(self.slides@[i as int] == s);
                assert forall|q: int|
                    0 <= q < i + 1 && self.slide_feed_eligible(
                        #[trigger] self.slides@[q],
                        nowi,
                    ) implies Self::slide_row_listed(self.slides@, gathered@, q) by {
                    if q < i as int {
                        assert(Self::slide_row_listed(self.slides@, old_gathered, q));
                        let k = choose|k: int|
                            0 <= k < old_gathered.len() && (#[trigger] old_gathered[k]).slide_id
                                == self.slides@[q].id;
                        assert(gathered@[k] == old_gathered[k]);
                        assert(gathered@[k].slide_id == self.slides@[q].id);
                    } else {
                        assert(pred(s));
                        assert(gathered@[gathered@.len() - 1].slide_id == self.slides@[q].id);
                    }
                }
            }
            i = i + 1;
        }
        proof {
            assert(self.slides@.subrange(0, self.slides@.len() as int) =~= self.slides@);
        }
        let rows = insertion_sort(&gathered);
        proof {
            assert forall|k: int| 0 <= k < rows@.len() implies self.row_from_store(
                screen as int,
                nowi,
                #[trigger] rows@[k],
            ) by {
                assert(rows@.contains(rows@[k]));
                assert(gathered@.to_multiset().contains(rows@[k]));
                assert(gathered@.contains(rows@[k]));
                let q = choose|q: int| 0 <= q < gathered@.len() && gathered@[q] == rows@[k];
                assert(self.row_from_store(screen as int, nowi, gathered@[q]));
            }
            assert forall|i2: int|
                0 <= i2 < self.slides@.len() && self.slide_feed_eligible(
                    #[trigger] self.slides@[i2],
                    nowi,
                ) implies Self::slide_row_listed(self.slides@, rows@, i2) by {
                assert(Self::slide_row_listed(self.slides@, gathered@, i2));
                let q = choose|q: int|
                    0 <= q < gathered@.len() && (#[trigger] gathered@[q]).slide_id
                        == self.slides@[i2].id;
                assert(gathered@.contains(gathered@[q]));
                assert(rows@.to_multiset().contains(gathered@[q]));
                assert(rows@.contains(gathered@[q]));
                let k = choose|k: int| 0 <= k < rows@.len() && rows@[k] == gathered@[q];
                assert(rows@[k].slide_id == self.slides@[i2].id);
            }
        }
        rows
    }
}

} // verus!
