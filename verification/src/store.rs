//! The domain store: a consistent snapshot of screens, slide groups,
//! slides and content rows, with the transactional mutation operations the
//! feed query depends on. Every mutation either applies in full or leaves
//! the store untouched (all-or-nothing), mirroring a database transaction.

use vstd::prelude::*;

use crate::domain::{Archival, Content, Screen, Slide, SlideGroup};
use crate::dtos::{CreateContentDto, CreateScreenDto, CreateSlideDto, CreateSlideGroupDto, CreatedDto, MoveSlidesDto};
use crate::error::AppError;

verus! {

/// `b` agrees with `a` on every field but `archive`.
pub open spec fn group_fields_except_archive(a: SlideGroup, b: SlideGroup) -> bool {
    &&& b.id == a.id
    &&& b.title == a.title
    &&& b.priority == a.priority
    &&& b.hidden == a.hidden
    &&& b.created_by == a.created_by
    &&& b.start_date == a.start_date
    &&& b.end_date == a.end_date
    &&& b.published == a.published
}

/// `b` agrees with `a` on every field but `published`.
pub open spec fn group_fields_except_published(a: SlideGroup, b: SlideGroup) -> bool {
    &&& b.id == a.id
    &&& b.title == a.title
    &&& b.priority == a.priority
    &&& b.hidden == a.hidden
    &&& b.created_by == a.created_by
    &&& b.start_date == a.start_date
    &&& b.end_date == a.end_date
    &&& b.archive == a.archive
}

/// `b` agrees with `a` on every field but `priority`.
pub open spec fn group_fields_except_priority(a: SlideGroup, b: SlideGroup) -> bool {
    &&& b.id == a.id
    &&& b.title == a.title
    &&& b.hidden == a.hidden
    &&& b.created_by == a.created_by
    &&& b.start_date == a.start_date
    &&& b.end_date == a.end_date
    &&& b.archive == a.archive
    &&& b.published == a.published
}

/// `b` is `a` after an update: the editable fields come from the request,
/// while identity, attribution, publication and lifecycle are kept.
pub open spec fn group_updated_from(a: SlideGroup, b: SlideGroup, dto: CreateSlideGroupDto) -> bool {
    &&& b.id == a.id
    &&& b.title == dto.title
    &&& b.priority == dto.priority
    &&& b.hidden == dto.hidden
    &&& b.created_by == a.created_by
    &&& b.start_date == dto.start_date
    &&& b.end_date == dto.end_date
    &&& b.archive == a.archive
    &&& b.published == a.published
}

/// One move applied: the slide with the given id (if any) takes the given
/// position; everything else stays.
pub open spec fn move_one(slides: Seq<Slide>, m: (i32, i32)) -> Seq<Slide> {
    Seq::new(
        slides.len(),
        |i: int|
            if slides[i].id == m.0 {
                Slide {
                    id: slides[i].id,
                    position: m.1,
                    group: slides[i].group,
                    archive: slides[i].archive,
                }
            } else {
                slides[i]
            },
    )
}

/// The whole bulk move applied, entry by entry, in order.
pub open spec fn apply_moves(slides: Seq<Slide>, moves: Seq<(i32, i32)>) -> Seq<Slide>
    decreases moves.len(),
{
    if moves.len() == 0 {
        slides
    } else {
        apply_moves(move_one(slides, moves[0]), moves.drop_first())
    }
}

proof fn lemma_apply_moves_push(slides: Seq<Slide>, moves: Seq<(i32, i32)>, m: (i32, i32))
    ensures
        apply_moves(slides, moves.push(m)) == move_one(apply_moves(slides, moves), m),
    decreases moves.len(),
{
    if moves.len() == 0 {
        assert(moves.push(m)[0] == m);
        assert(moves.push(m).drop_first() =~= Seq::<(i32, i32)>::empty());
        assert(apply_moves(move_one(slides, m), Seq::<(i32, i32)>::empty()) == move_one(
            slides,
            m,
        ));
        assert(apply_moves(slides, moves.push(m)) == apply_moves(
            move_one(slides, m),
            moves.push(m).drop_first(),
        ));
    } else {
        assert(moves.push(m)[0] == moves[0]);
        assert(moves.push(m).drop_first() =~= moves.drop_first().push(m));
        lemma_apply_moves_push(move_one(slides, moves[0]), moves.drop_first(), m);
    }
}

/// `b` agrees with `a` on every field but `archive`.
pub open spec fn content_fields_except_archive(a: Content, b: Content) -> bool {
    &&& b.id == a.id
    &&& b.slide == a.slide
    &&& b.screen == a.screen
    &&& b.content_type == a.content_type
    &&& b.file_path == a.file_path
}

/// The successful outcome of `create_content`: the guards passed, every
/// previously active row for the (slide, screen) pair was archived in
/// place at the upload's instant, and the new row was appended with the
/// next id; nothing else moved.
pub open spec fn content_upload_transition(
    pre: SignageStore,
    post: SignageStore,
    dto: CreateContentDto,
    file_path: String,
    now_ms: i64,
) -> bool {
    &&& pre.has_screen(dto.screen as int)
    &&& pre.content_slide_ok(dto.slide as int)
    &&& post.next_content_id == pre.next_content_id + 1
    &&& post.contents@.len() == pre.contents@.len() + 1
    &&& ({
        let c = post.contents@.last();
        &&& c.id == pre.next_content_id
        &&& c.slide == dto.slide
        &&& c.screen == dto.screen
        &&& c.content_type == dto.content_type
        &&& c.file_path == file_path
        &&& c.archive is Active
    })
    &&& forall|j: int|
        0 <= j < pre.contents@.len() ==> {
            let a = #[trigger] pre.contents@[j];
            let b = post.contents@[j];
            if a.archive is Active && a.slide == dto.slide && a.screen == dto.screen {
                content_fields_except_archive(a, b) && b.archive == Archival::Archived(now_ms)
            } else {
                b == a
            }
        }
    &&& SignageStore::same_screens(pre, post)
    &&& SignageStore::same_groups(pre, post)
    &&& SignageStore::same_slides(pre, post)
}

/// An active content row for this (slide, screen) pair.
pub open spec fn content_active_for(c: Content, slide_id: int, screen: int) -> bool {
    c.archive is Active && c.slide == slide_id && c.screen == screen
}

/// Two content rows that may not coexist: both active for one (slide,
/// screen) pair.
pub open spec fn both_active_same_target(a: Content, b: Content) -> bool {
    &&& a.archive is Active
    &&& b.archive is Active
    &&& a.slide == b.slide
    &&& a.screen == b.screen
}

/// The store. Records are kept in id order (ids are assigned from
/// monotonically growing counters, starting at 1, and records are never
/// removed), and at most one active content row exists per (slide, screen)
/// pair.
pub struct SignageStore {
    pub screens: Vec<Screen>,
    pub groups: Vec<SlideGroup>,
    pub slides: Vec<Slide>,
    pub contents: Vec<Content>,
    pub next_screen_id: i32,
    pub next_group_id: i32,
    pub next_slide_id: i32,
    pub next_content_id: i32,
}

impl SignageStore {
    /// The store's invariant: ids are positive, below their counter, and
    /// strictly increasing within each table; content rows never hold two
    /// active entries for one (slide, screen) pair.
    pub open spec fn wf(self) -> bool {
        &&& 1 <= self.next_screen_id
        &&& 1 <= self.next_group_id
        &&& 1 <= self.next_slide_id
        &&& 1 <= self.next_content_id
        &&& forall|i: int|
            0 <= i < self.screens@.len() ==> 1 <= (#[trigger] self.screens@[i]).id
                < self.next_screen_id
        &&& forall|i: int, j: int|
            0 <= i < j < self.screens@.len() ==> self.screens@[i].id < self.screens@[j].id
        &&& forall|i: int|
            0 <= i < self.groups@.len() ==> 1 <= (#[trigger] self.groups@[i]).id
                < self.next_group_id
        &&& forall|i: int, j: int|
            0 <= i < j < self.groups@.len() ==> self.groups@[i].id < self.groups@[j].id
        &&& forall|i: int|
            0 <= i < self.slides@.len() ==> 1 <= (#[trigger] self.slides@[i]).id
                < self.next_slide_id
        &&& forall|i: int, j: int|
            0 <= i < j < self.slides@.len() ==> self.slides@[i].id < self.slides@[j].id
        &&& forall|i: int|
            0 <= i < self.contents@.len() ==> 1 <= (#[trigger] self.contents@[i]).id
                < self.next_content_id
        &&& forall|i: int, j: int|
            0 <= i < j < self.contents@.len() ==> self.contents@[i].id < self.contents@[j].id
        &&& forall|i: int, j: int|
            0 <= i < j < self.contents@.len() ==> !both_active_same_target(
                self.contents@[i],
                self.contents@[j],
            )
    }

    /// The screens table and its counter are untouched.
    pub open spec fn same_screens(pre: Self, post: Self) -> bool {
        post.screens == pre.screens && post.next_screen_id == pre.next_screen_id
    }

    /// The slide-groups table and its counter are untouched.
    pub open spec fn same_groups(pre: Self, post: Self) -> bool {
        post.groups == pre.groups && post.next_group_id == pre.next_group_id
    }

    /// The slides table and its counter are untouched.
    pub open spec fn same_slides(pre: Self, post: Self) -> bool {
        post.slides == pre.slides && post.next_slide_id == pre.next_slide_id
    }

    /// The contents table and its counter are untouched.
    pub open spec fn same_contents(pre: Self, post: Self) -> bool {
        post.contents == pre.contents && post.next_content_id == pre.next_content_id
    }

    pub open spec fn has_screen(self, id: int) -> bool {
        exists|i: int| 0 <= i < self.screens@.len() && (#[trigger] self.screens@[i]).id == id
    }

    pub open spec fn has_group(self, id: int) -> bool {
        exists|i: int| 0 <= i < self.groups@.len() && (#[trigger] self.groups@[i]).id == id
    }

    pub open spec fn has_slide(self, id: int) -> bool {
        exists|i: int| 0 <= i < self.slides@.len() && (#[trigger] self.slides@[i]).id == id
    }

    /// A bulk-move entry is valid when it names an existing, active slide.
    pub open spec fn move_entry_valid(self, m: (i32, i32)) -> bool {
        exists|i: int|
            0 <= i < self.slides@.len() && (#[trigger] self.slides@[i]).id == m.0
                && self.slides@[i].archive is Active
    }

    /// No group with this id is archived (vacuously true when the group
    /// does not exist: an absent group never blocks content).
    pub open spec fn group_not_archived(self, gid: int) -> bool {
        forall|j: int|
            0 <= j < self.groups@.len() && (#[trigger] self.groups@[j]).id == gid
                ==> self.groups@[j].archive is Active
    }

    /// Content may be attached to this slide: it exists, is active, and
    /// its group (if it exists) is not archived.
    pub open spec fn content_slide_ok(self, slide_id: int) -> bool {
        exists|i: int|
            {
                &&& 0 <= i < self.slides@.len()
                &&& (#[trigger] self.slides@[i]).id == slide_id
                &&& self.slides@[i].archive is Active
                &&& self.group_not_archived(self.slides@[i].group as int)
            }
    }

    /// An empty store.
    pub fn new() -> (s: Self)
        ensures
            s.wf(),
            s.screens@.len() == 0,
            s.groups@.len() == 0,
            s.slides@.len() == 0,
            s.contents@.len() == 0,
            s.next_screen_id == 1,
            s.next_group_id == 1,
            s.next_slide_id == 1,
            s.next_content_id == 1,
    {
        SignageStore {
            screens: Vec::new(),
            groups: Vec::new(),
            slides: Vec::new(),
            contents: Vec::new(),
            next_screen_id: 1,
            next_group_id: 1,
            next_slide_id: 1,
            next_content_id: 1,
        }
    }

    pub(crate) fn find_screen_index(&self, id: i32) -> (r: Option<usize>)
        ensures
            match r {
                Some(i) => i < self.screens@.len() && self.screens@[i as int].id == id,
                None => !self.has_screen(id as int),
            },
    {
        let mut i: usize = 0;
        while i < self.screens.len()
            invariant
                0 <= i <= self.screens@.len(),
                forall|k: int| 0 <= k < i ==> (#[trigger] self.screens@[k]).id != id,
            decreases self.screens@.len() - i,
        {
            if self.screens[i].id == id {
                return Some(i);
            }
            i = i + 1;
        }
        None
    }

    pub(crate) fn find_group_index(&self, id: i32) -> (r: Option<usize>)
        ensures
            match r {
                Some(i) => i < self.groups@.len() && self.groups@[i as int].id == id,
                None => !self.has_group(id as int),
            },
    {
        let mut i: usize = 0;
        while i < self.groups.len()
            invariant
                0 <= i <= self.groups@.len(),
                forall|k: int| 0 <= k < i ==> (#[trigger] self.groups@[k]).id != id,
            decreases self.groups@.len() - i,
        {
            if self.groups[i].id == id {
                return Some(i);
            }
            i = i + 1;
        }
        None
    }

    pub(crate) fn find_slide_index(&self, id: i32) -> (r: Option<usize>)
        ensures
            match r {
                Some(i) => i < self.slides@.len() && self.slides@[i as int].id == id,
                None => !self.has_slide(id as int),
            },
    {
        let mut i: usize = 0;
        while i < self.slides.len()
            invariant
                0 <= i <= self.slides@.len(),
                forall|k: int| 0 <= k < i ==> (#[trigger] self.slides@[k]).id != id,
            decreases self.slides@.len() - i,
        {
            if self.slides[i].id == id {
                return Some(i);
            }
            i = i + 1;
        }
        None
    }

    /// Creates a screen with the next id.
    pub fn create_screen(&mut self, dto: &CreateScreenDto) -> (r: CreatedDto)
        requires
            old(self).wf(),
            old(self).next_screen_id < i32::MAX,
        ensures
            final(self).wf(),
            r.id == old(self).next_screen_id,
            final(self).screens@.len() == old(self).screens@.len() + 1,
            final(self).screens@.subrange(0, old(self).screens@.len() as int) == old(self).screens@,
            final(self).screens@.last().id == old(self).next_screen_id,
            final(self).screens@.last().name == dto.name,
            final(self).screens@.last().position == dto.position,
            final(self).next_screen_id == old(self).next_screen_id + 1,
            Self::same_groups(*old(self), *final(self)),
            Self::same_slides(*old(self), *final(self)),
            Self::same_contents(*old(self), *final(self)),
    {
        let id = self.next_screen_id;
        self.screens.push(Screen { id, name: dto.name.clone(), position: dto.position });
        self.next_screen_id = id + 1;
        proof {
            assert(final(self).screens@.subrange(0, old(self).screens@.len() as int) =~= old(self).screens@);
        }
        CreatedDto { id }
    }

    /// Creates a slide group: a draft (unpublished), active, attributed to
    /// the acting user.
    pub fn create_slide_group(&mut self, dto: &CreateSlideGroupDto, created_by: &String) -> (r:
        CreatedDto)
        requires
            old(self).wf(),
            old(self).next_group_id < i32::MAX,
        ensures
            final(self).wf(),
            r.id == old(self).next_group_id,
            final(self).groups@.len() == old(self).groups@.len() + 1,
            final(self).groups@.subrange(0, old(self).groups@.len() as int) == old(self).groups@,
            ({
                let g = final(self).groups@.last();
                &&& g.id == old(self).next_group_id
                &&& g.title == dto.title
                &&& g.priority == dto.priority
                &&& g.hidden == dto.hidden
                &&& g.created_by == created_by
                &&& g.start_date == dto.start_date
                &&& g.end_date == dto.end_date
                &&& g.archive is Active
                &&& !g.published
            }),
            final(self).next_group_id == old(self).next_group_id + 1,
            Self::same_screens(*old(self), *final(self)),
            Self::same_slides(*old(self), *final(self)),
            Self::same_contents(*old(self), *final(self)),
    {
        let id = self.next_group_id;
        self.groups.push(
            SlideGroup {
                id,
                title: dto.title.clone(),
                priority: dto.priority,
                hidden: dto.hidden,
                created_by: created_by.clone(),
                start_date: dto.start_date,
                end_date: dto.end_date,
                archive: Archival::Active,
                published: false,
            },
        );
        self.next_group_id = id + 1;
        proof {
            assert(final(self).groups@.subrange(0, old(self).groups@.len() as int) =~= old(self).groups@);
        }
        CreatedDto { id }
    }

    /// Creates a slide under a group. The referenced group is deliberately
    /// not checked for existence or archival at this layer.
    pub fn create_slide(&mut self, dto: &CreateSlideDto) -> (r: CreatedDto)
        requires
            old(self).wf(),
            old(self).next_slide_id < i32::MAX,
        ensures
            final(self).wf(),
            r.id == old(self).next_slide_id,
            final(self).slides@.len() == old(self).slides@.len() + 1,
            final(self).slides@.subrange(0, old(self).slides@.len() as int) == old(self).slides@,
            final(self).slides@.last() == (Slide {
                id: old(self).next_slide_id,
                position: dto.position,
                group: dto.slide_group,
                archive: Archival::Active,
            }),
            final(self).next_slide_id == old(self).next_slide_id + 1,
            Self::same_screens(*old(self), *final(self)),
            Self::same_groups(*old(self), *final(self)),
            Self::same_contents(*old(self), *final(self)),
    {
        let id = self.next_slide_id;
        self.slides.push(
            Slide { id, position: dto.position, group: dto.slide_group, archive: Archival::Active },
        );
        self.next_slide_id = id + 1;
        proof {
            assert(final(self).slides@.subrange(0, old(self).slides@.len() as int) =~= old(self).slides@);
        }
        CreatedDto { id }
    }

    /// Updates a group's editable fields (title, priority, hidden, window).
    /// Rejected when the group is missing or archived; `published`,
    /// `created_by` and the lifecycle are never touched.
    pub fn update_slide_group(&mut self, id: i32, dto: &CreateSlideGroupDto) -> (r: Result<
        (),
        AppError,
    >)
        requires
            old(self).wf(),
        ensures
            final(self).wf(),
            Self::same_screens(*old(self), *final(self)),
            Self::same_slides(*old(self), *final(self)),
            Self::same_contents(*old(self), *final(self)),
            final(self).next_group_id == old(self).next_group_id,
            match r {
                Ok(()) => exists|i: int|
                    {
                        &&& 0 <= i < old(self).groups@.len()
                        &&& (#[trigger] old(self).groups@[i]).id == id
                        &&& old(self).groups@[i].archive is Active
                        &&& final(self).groups@.len() == old(self).groups@.len()
                        &&& (forall|j: int|
                            0 <= j < old(self).groups@.len() && j != i ==> final(self).groups@[j]
                                == old(self).groups@[j])
                        &&& group_updated_from(
                            old(self).groups@[i],
                            final(self).groups@[i],
                            *dto,
                        )
                    },
                Err(AppError::SlideGroupNotFound) => !old(self).has_group(id as int) && final(self).groups == old(self).groups,
                Err(AppError::SlideGroupArchived) => (exists|i: int|
                    0 <= i < old(self).groups@.len() && (#[trigger] old(self).groups@[i]).id == id
                        && old(self).groups@[i].archive is Archived) && final(self).groups == old(self).groups,
                Err(_) => false,
            },
    {
        let idx = match self.find_group_index(id) {
            None => {
                return Err(AppError::SlideGroupNotFound);
            },
            Some(i) => i,
        };
        if self.groups[idx].archive.is_archived() {
            return Err(AppError::SlideGroupArchived);
        }
        let mut g = self.groups[idx].clone();
        g.title = dto.title.clone();
        g.priority = dto.priority;
        g.hidden = dto.hidden;
        g.start_date = dto.start_date;
        g.end_date = dto.end_date;
        self.groups[idx] = g;
        Ok(())
    }

    /// Marks a group as published. Idempotent; rejected when the group is
    /// missing or archived.
    pub fn publish_slide_group(&mut self, id: i32) -> (r: Result<(), AppError>)
        requires
            old(self).wf(),
        ensures
            final(self).wf(),
            Self::same_screens(*old(self), *final(self)),
            Self::same_slides(*old(self), *final(self)),
            Self::same_contents(*old(self), *final(self)),
            final(self).next_group_id == old(self).next_group_id,
            match r {
                Ok(()) => exists|i: int|
                    {
                        &&& 0 <= i < old(self).groups@.len()
                        &&& (#[trigger] old(self).groups@[i]).id == id
                        &&& old(self).groups@[i].archive is Active
                        &&& final(self).groups@.len() == old(self).groups@.len()
                        &&& (forall|j: int|
                            0 <= j < old(self).groups@.len() && j != i ==> final(self).groups@[j]
                                == old(self).groups@[j])
                        &&& group_fields_except_published(
                            old(self).groups@[i],
                            final(self).groups@[i],
                        )
                        &&& final(self).groups@[i].published
                    },
                Err(AppError::SlideGroupNotFound) => !old(self).has_group(id as int) && final(self).groups == old(self).groups,
                Err(AppError::SlideGroupArchived) => (exists|i: int|
                    0 <= i < old(self).groups@.len() && (#[trigger] old(self).groups@[i]).id == id
                        && old(self).groups@[i].archive is Archived) && final(self).groups == old(self).groups,
                Err(_) => false,
            },
    {
        let idx = match self.find_group_index(id) {
            None => {
                return Err(AppError::SlideGroupNotFound);
            },
            Some(i) => i,
        };
        if self.groups[idx].archive.is_archived() {
            return Err(AppError::SlideGroupArchived);
        }
        let mut g = self.groups[idx].clone();
        g.published = true;
        self.groups[idx] = g;
        Ok(())
    }

    /// Archives (soft-deletes) a group at the given instant. Not
    /// idempotent: archiving an archived group is an error, surfacing
    /// double submissions.
    pub fn archive_slide_group(&mut self, id: i32, now_ms: i64) -> (r: Result<(), AppError>)
        requires
            old(self).wf(),
        ensures
            final(self).wf(),
            Self::same_screens(*old(self), *final(self)),
            Self::same_slides(*old(self), *final(self)),
            Self::same_contents(*old(self), *final(self)),
            final(self).next_group_id == old(self).next_group_id,
            match r {
                Ok(()) => exists|i: int|
                    {
                        &&& 0 <= i < old(self).groups@.len()
                        &&& (#[trigger] old(self).groups@[i]).id == id
                        &&& old(self).groups@[i].archive is Active
                        &&& final(self).groups@.len() == old(self).groups@.len()
                        &&& (forall|j: int|
                            0 <= j < old(self).groups@.len() && j != i ==> final(self).groups@[j]
                                == old(self).groups@[j])
                        &&& group_fields_except_archive(
                            old(self).groups@[i],
                            final(self).groups@[i],
                        )
                        &&& final(self).groups@[i].archive == Archival::Archived(now_ms)
                    },
                Err(AppError::SlideGroupNotFound) => !old(self).has_group(id as int) && final(self).groups == old(self).groups,
                Err(AppError::SlideGroupArchived) => (exists|i: int|
                    0 <= i < old(self).groups@.len() && (#[trigger] old(self).groups@[i]).id == id
                        && old(self).groups@[i].archive is Archived) && final(self).groups == old(self).groups,
                Err(_) => false,
            },
    {
        let idx = match self.find_group_index(id) {
            None => {
                return Err(AppError::SlideGroupNotFound);
            },
            Some(i) => i,
        };
        if self.groups[idx].archive.is_archived() {
            return Err(AppError::SlideGroupArchived);
        }
        let mut g = self.groups[idx].clone();
        g.archive = Archival::Archived(now_ms);
        self.groups[idx] = g;
        Ok(())
    }

    /// Archives (soft-deletes) a slide at the given instant. Rejected when
    /// the slide is missing or already archived.
    pub fn delete_slide(&mut self, id: i32, now_ms: i64) -> (r: Result<(), AppError>)
        requires
            old(self).wf(),
        ensures
            final(self).wf(),
            Self::same_screens(*old(self), *final(self)),
            Self::same_groups(*old(self), *final(self)),
            Self::same_contents(*old(self), *final(self)),
            final(self).next_slide_id == old(self).next_slide_id,
            match r {
                Ok(()) => exists|i: int|
                    {
                        &&& 0 <= i < old(self).slides@.len()
                        &&& (#[trigger] old(self).slides@[i]).id == id
                        &&& old(self).slides@[i].archive is Active
                        &&& final(self).slides@ == old(self).slides@.update(
                            i,
                            Slide {
                                id: old(self).slides@[i].id,
                                position: old(self).slides@[i].position,
                                group: old(self).slides@[i].group,
                                archive: Archival::Archived(now_ms),
                            },
                        )
                    },
                Err(AppError::SlideNotFound) => !old(self).has_slide(id as int) && final(self).slides == old(self).slides,
                Err(AppError::SlideArchived) => (exists|i: int|
                    0 <= i < old(self).slides@.len() && (#[trigger] old(self).slides@[i]).id == id
                        && old(self).slides@[i].archive is Archived) && final(self).slides == old(self).slides,
                Err(_) => false,
            },
    {
        let idx = match self.find_slide_index(id) {
            None => {
                return Err(AppError::SlideNotFound);
            },
            Some(i) => i,
        };
        let s0 = self.slides[idx];
        if s0.archive.is_archived() {
            return Err(AppError::SlideArchived);
        }
        self.slides[idx] = Slide {
            id: s0.id,
            position: s0.position,
            group: s0.group,
            archive: Archival::Archived(now_ms),
        };
        Ok(())
    }

    /// The daily reset job: every active group's priority drops to 0;
    /// archived groups are left as they are.
    pub fn unpin_slide_groups(&mut self)
        requires
            old(self).wf(),
        ensures
            final(self).wf(),
            Self::same_screens(*old(self), *final(self)),
            Self::same_slides(*old(self), *final(self)),
            Self::same_contents(*old(self), *final(self)),
            final(self).next_group_id == old(self).next_group_id,
            final(self).groups@.len() == old(self).groups@.len(),
            forall|i: int|
                0 <= i < old(self).groups@.len() ==> {
                    if (#[trigger] old(self).groups@[i]).archive is Active {
                        &&& group_fields_except_priority(
                            old(self).groups@[i],
                            final(self).groups@[i],
                        )
                        &&& final(self).groups@[i].priority == 0
                    } else {
                        final(self).groups@[i] == old(self).groups@[i]
                    }
                },
    {
        let ghost orig = *self;
        let mut i: usize = 0;
        while i < self.groups.len()
            invariant
                0 <= i <= self.groups@.len(),
                orig.wf(),
                self.groups@.len() == orig.groups@.len(),
                Self::same_screens(orig, *self),
                Self::same_slides(orig, *self),
                Self::same_contents(orig, *self),
                self.next_group_id == orig.next_group_id,
                self.next_screen_id == orig.next_screen_id,
                self.next_slide_id == orig.next_slide_id,
                self.next_content_id == orig.next_content_id,
                forall|k: int| i <= k < orig.groups@.len() ==> self.groups@[k] == orig.groups@[k],
                forall|k: int|
                    0 <= k < i ==> {
                        if (#[trigger] orig.groups@[k]).archive is Active {
                            &&& group_fields_except_priority(orig.groups@[k], self.groups@[k])
                            &&& self.groups@[k].priority == 0
                        } else {
                            self.groups@[k] == orig.groups@[k]
                        }
                    },
            decreases self.groups@.len() - i,
        {
            if !self.groups[i].archive.is_archived() {
                let mut g = self.groups[i].clone();
                g.priority = 0;
                self.groups[i] = g;
            }
            i = i + 1;
        }
        proof {
            assert forall|a: int| 0 <= a < self.groups@.len() implies 1 <= (
            #[trigger] self.groups@[a]).id < self.next_group_id by {
                assert(self.groups@[a].id == orig.groups@[a].id);
            }
            assert forall|a: int, b: int| 0 <= a < b < self.groups@.len() implies self.groups@[a].id
                < self.groups@[b].id by {
                assert(self.groups@[a].id == orig.groups@[a].id);
                assert(self.groups@[b].id == orig.groups@[b].id);
            }
        }
    }

    /// Moves slides to new positions, all-or-nothing: if any entry names a
    /// missing or archived slide, the whole operation fails and no position
    /// changes; otherwise every entry is applied, in order.
    pub fn bulk_move_slides(&mut self, positions: &MoveSlidesDto) -> (r: Result<(), AppError>)
        requires
            old(self).wf(),
        ensures
            final(self).wf(),
            Self::same_screens(*old(self), *final(self)),
            Self::same_groups(*old(self), *final(self)),
            Self::same_contents(*old(self), *final(self)),
            final(self).next_slide_id == old(self).next_slide_id,
            match r {
                Ok(()) => (forall|k: int|
                    0 <= k < positions.new_positions@.len() ==> old(self).move_entry_valid(
                        #[trigger] positions.new_positions@[k],
                    )) && final(self).slides@ == apply_moves(
                    old(self).slides@,
                    positions.new_positions@,
                ),
                Err(AppError::SlideNotFound) => (exists|k: int|
                    0 <= k < positions.new_positions@.len() && !old(self).has_slide(
                        (#[trigger] positions.new_positions@[k]).0 as int,
                    )) && final(self).slides == old(self).slides,
                Err(AppError::SlideArchived) => (exists|k: int|
                    0 <= k < positions.new_positions@.len() && !old(self).move_entry_valid(
                        #[trigger] positions.new_positions@[k],
                    )) && final(self).slides == old(self).slides,
                Err(_) => false,
            },
            (forall|k: int|
                0 <= k < positions.new_positions@.len() ==> old(self).move_entry_valid(
                    #[trigger] positions.new_positions@[k],
                )) ==> r is Ok,
    {
        let ghost orig = *self;
        let ghost moves = positions.new_positions@;
        // validation pass: the whole batch must be applicable
        let mut k: usize = 0;
        while k < positions.new_positions.len()
            invariant
                orig == *self,
                orig.wf(),
                moves == positions.new_positions@,
                0 <= k <= moves.len(),
                forall|q: int| 0 <= q < k ==> orig.move_entry_valid(#[trigger] moves[q]),
            decreases moves.len() - k,
        {
            let entry = positions.new_positions[k];
            match self.find_slide_index(entry.0) {
                None => {
                    return Err(AppError::SlideNotFound);
                },
                Some(i) => {
                    if self.slides[i].archive.is_archived() {
                        proof {
                            assert forall|j: int|
                                0 <= j < self.slides@.len() && (#[trigger] self.slides@[j]).id
                                    == entry.0 implies j == i as int by {
                                if j < i as int {
                                    assert(self.slides@[j].id < self.slides@[i as int].id);
                                } else if j > i as int {
                                    assert(self.slides@[i as int].id < self.slides@[j].id);
                                }
                            }
                        }
                        return Err(AppError::SlideArchived);
                    }
                },
            }
            k = k + 1;
        }
        // apply pass: every entry is known to be applicable
        let ghost orig_slides = orig.slides@;
        let mut k: usize = 0;
        while k < positions.new_positions.len()
            invariant
                orig.wf(),
                moves == positions.new_positions@,
                0 <= k <= moves.len(),
                Self::same_screens(orig, *self),
                Self::same_groups(orig, *self),
                Self::same_contents(orig, *self),
                self.next_slide_id == orig.next_slide_id,
                self.slides@ == apply_moves(orig_slides, moves.subrange(0, k as int)),
                orig_slides == orig.slides@,
                self.slides@.len() == orig_slides.len(),
                forall|i: int|
                    0 <= i < orig_slides.len() ==> {
                        let b = #[trigger] self.slides@[i];
                        b.id == orig_slides[i].id && b.group == orig_slides[i].group && b.archive
                            == orig_slides[i].archive
                    },
                forall|q: int| 0 <= q < moves.len() ==> orig.move_entry_valid(#[trigger] moves[q]),
            decreases moves.len() - k,
        {
            let entry = positions.new_positions[k];
            let ghost pre_slides = self.slides@;
            match self.find_slide_index(entry.0) {
                None => {
                    proof {
                        assert forall|j: int| 0 <= j < pre_slides.len() implies (
                        #[trigger] pre_slides[j]).id != entry.0 by {
                            assert(!self.has_slide(entry.0 as int));
                        }
                        assert(move_one(pre_slides, moves[k as int]) =~= pre_slides);
                    }
                },
                Some(i) => {
                    let s0 = self.slides[i];
                    self.slides[i] = Slide {
                        id: s0.id,
                        position: entry.1,
                        group: s0.group,
                        archive: s0.archive,
                    };
                    proof {
                        assert forall|j: int|
                            0 <= j < pre_slides.len() && (#[trigger] pre_slides[j]).id == entry.0
                                implies j == i as int by {
                            if j < i as int {
                                assert(orig_slides[j].id < orig_slides[i as int].id);
                            } else if j > i as int {
                                assert(orig_slides[i as int].id < orig_slides[j].id);
                            }
                        }
                        assert(self.slides@ =~= move_one(pre_slides, moves[k as int]));
                    }
                },
            }
            proof {
                assert(moves.subrange(0, k as int + 1) =~= moves.subrange(0, k as int).push(
                    moves[k as int],
                ));
                lemma_apply_moves_push(orig_slides, moves.subrange(0, k as int), moves[k as int]);
                assert(self.slides@ == apply_moves(orig_slides, moves.subrange(0, k as int + 1)));
            }
            k = k + 1;
        }
        proof {
            assert(moves.subrange(0, moves.len() as int) =~= moves);
            assert forall|a: int| 0 <= a < self.slides@.len() implies 1 <= (
            #[trigger] self.slides@[a]).id < self.next_slide_id by {
                assert(self.slides@[a].id == orig_slides[a].id);
            }
            assert forall|a: int, b: int| 0 <= a < b < self.slides@.len() implies self.slides@[a].id
                < self.slides@[b].id by {
                assert(self.slides@[a].id == orig_slides[a].id);
                assert(self.slides@[b].id == orig_slides[b].id);
            }
        }
        Ok(())
    }

    /// Attaches uploaded content to a slide for one screen: the screen must
    /// exist and the slide must be attachable (active, with its group, if
    /// any, not archived). Any active content row for the same (slide,
    /// screen) pair is archived first — a soft overwrite that keeps the old
    /// row for history — and the new row is inserted, all in one step.
    pub fn create_content(
        &mut self,
        dto: &CreateContentDto,
        file_path: String,
        now_ms: i64,
    ) -> (r: Result<CreatedDto, AppError>)
        requires
            old(self).wf(),
            old(self).next_content_id < i32::MAX,
        ensures
            final(self).wf(),
            Self::same_screens(*old(self), *final(self)),
            Self::same_groups(*old(self), *final(self)),
            Self::same_slides(*old(self), *final(self)),
            match r {
                Ok(created) => created.id == old(self).next_content_id
                    && content_upload_transition(
                    *old(self),
                    *final(self),
                    *dto,
                    file_path,
                    now_ms,
                ),
                Err(AppError::ScreenNotFound) => !old(self).has_screen(dto.screen as int)
                    && Self::same_contents(*old(self), *final(self)),
                Err(AppError::SlideNotFound) => old(self).has_screen(dto.screen as int) && !old(
                    self,
                ).content_slide_ok(dto.slide as int) && Self::same_contents(
                    *old(self),
                    *final(self),
                ),
                Err(_) => false,
            },
    {
        if self.find_screen_index(dto.screen).is_none() {
            return Err(AppError::ScreenNotFound);
        }
        let sidx = match self.find_slide_index(dto.slide) {
            None => {
                return Err(AppError::SlideNotFound);
            },
            Some(i) => i,
        };
        proof {
            assert forall|j: int|
                0 <= j < self.slides@.len() && (#[trigger] self.slides@[j]).id == dto.slide
                    implies j == sidx as int by {
                if j < sidx as int {
                    assert(self.slides@[j].id < self.slides@[sidx as int].id);
                } else if j > sidx as int {
                    assert(self.slides@[sidx as int].id < self.slides@[j].id);
                }
            }
        }
        let s = self.slides[sidx];
        if s.archive.is_archived() {
            return Err(AppError::SlideNotFound);
        }
        match self.find_group_index(s.group) {
            Some(gidx) => {
                if self.groups[gidx].archive.is_archived() {
                    proof {
                        assert(!self.group_not_archived(s.group as int));
                    }
                    return Err(AppError::SlideNotFound);
                }
                proof {
                    assert forall|j: int|
                        0 <= j < self.groups@.len() && (#[trigger] self.groups@[j]).id == s.group
                            implies self.groups@[j].archive is Active by {
                        if j < gidx as int {
                            assert(self.groups@[j].id < self.groups@[gidx as int].id);
                        } else if j > gidx as int {
                            assert(self.groups@[gidx as int].id < self.groups@[j].id);
                        }
                    }
                }
            },
            None => {
                proof {
                    assert(self.group_not_archived(s.group as int));
                }
            },
        }
        let ghost orig = *self;
        // soft overwrite: archive the pair's active row (if any)
        let mut j: usize = 0;
        while j < self.contents.len()
            invariant
                0 <= j <= self.contents@.len(),
                orig.wf(),
                self.contents@.len() == orig.contents@.len(),
                Self::same_screens(orig, *self),
                Self::same_groups(orig, *self),
                Self::same_slides(orig, *self),
                self.next_content_id == orig.next_content_id,
                self.next_screen_id == orig.next_screen_id,
                self.next_group_id == orig.next_group_id,
                self.next_slide_id == orig.next_slide_id,
                forall|q: int| j <= q < orig.contents@.len() ==> self.contents@[q]
                    == orig.contents@[q],
                forall|q: int|
                    0 <= q < j ==> {
                        let a = #[trigger] orig.contents@[q];
                        let b = self.contents@[q];
                        if a.archive is Active && a.slide == dto.slide && a.screen == dto.screen {
                            content_fields_except_archive(a, b) && b.archive == Archival::Archived(
                                now_ms,
                            )
                        } else {
                            b == a
                        }
                    },
            decreases self.contents@.len() - j,
        {
            let c0 = &self.contents[j];
            if !c0.archive.is_archived() && c0.slide == dto.slide && c0.screen == dto.screen {
                let mut c = self.contents[j].clone();
                c.archive = Archival::Archived(now_ms);
                self.contents[j] = c;
            }
            j = j + 1;
        }
        let id = self.next_content_id;
        let ghost before_push = self.contents@;
        self.contents.push(
            Content {
                id,
                slide: dto.slide,
                screen: dto.screen,
                content_type: dto.content_type,
                file_path,
                archive: Archival::Active,
            },
        );
        self.next_content_id = id + 1;
        proof {
            let post = self.contents@;
            let n = orig.contents@.len() as int;
            assert forall|a: int| 0 <= a < post.len() implies 1 <= (#[trigger] post[a]).id
                < self.next_content_id by {
                if a < n {
                    assert(orig.contents@[a].id < orig.next_content_id);
                }
            }
            assert forall|a: int, b: int| 0 <= a < b < post.len() implies post[a].id < post[b].id by {
                if b < n {
                    assert(orig.contents@[a].id < orig.contents@[b].id);
                } else {
                    assert(orig.contents@[a].id < orig.next_content_id);
                }
            }
            assert forall|a: int, b: int| 0 <= a < b < post.len() implies !both_active_same_target(
                post[a],
                post[b],
            ) by {
                if b < n {
                    assert(!both_active_same_target(orig.contents@[a], orig.contents@[b]));
                } else {
                    // the new row only clashes with an old active row for
                    // the same pair, and those were all just archived
                    if post[a].archive is Active && post[a].slide == dto.slide && post[a].screen
                        == dto.screen {
                        assert(orig.contents@[a].archive is Active ==> post[a].archive
                            == Archival::Archived(now_ms));
                        assert(!(orig.contents@[a].archive is Active) ==> post[a]
                            == orig.contents@[a]);
                    }
                }
            }
        }
        Ok(CreatedDto { id })
    }

    /// First-run initialisation: when no screens exist yet, the three
    /// default screens are created in display order; otherwise nothing
    /// happens.
    pub fn setup_screens(&mut self)
        requires
            old(self).wf(),
            old(self).next_screen_id < i32::MAX - 3,
        ensures
            final(self).wf(),
            Self::same_groups(*old(self), *final(self)),
            Self::same_slides(*old(self), *final(self)),
            Self::same_contents(*old(self), *final(self)),
            old(self).screens@.len() > 0 ==> Self::same_screens(*old(self), *final(self)),
            old(self).screens@.len() == 0 ==> {
                &&& final(self).screens@.len() == 3
                &&& final(self).screens@[0].name@ == "Left"@
                &&& final(self).screens@[0].position == 0
                &&& final(self).screens@[1].name@ == "Center"@
                &&& final(self).screens@[1].position == 1
                &&& final(self).screens@[2].name@ == "Right"@
                &&& final(self).screens@[2].position == 2
            },
    {
        if self.screens.len() > 0 {
            return;
        }
        self.create_screen(&CreateScreenDto { name: String::from_str("Left"), position: 0 });
        self.create_screen(&CreateScreenDto { name: String::from_str("Center"), position: 1 });
        self.create_screen(&CreateScreenDto { name: String::from_str("Right"), position: 2 });
    }
}

/// At-most-one content per (slide, screen): after an upload for a pair,
/// the pair's one active row is the row that upload appended; after a
/// second upload for the same pair, the first upload's row is still
/// present — archived at the second upload's instant, still naming its
/// original file path — so the first file stays resolvable.
pub proof fn lemma_content_overwrite(
    pre: SignageStore,
    mid: SignageStore,
    post: SignageStore,
    dto: CreateContentDto,
    path1: String,
    path2: String,
    t1: i64,
    t2: i64,
)
    requires
        pre.wf(),
        mid.wf(),
        post.wf(),
        content_upload_transition(pre, mid, dto, path1, t1),
        content_upload_transition(mid, post, dto, path2, t2),
    ensures
        content_active_for(post.contents@.last(), dto.slide as int, dto.screen as int),
        forall|i: int, j: int|
            0 <= i < j < post.contents@.len() && content_active_for(
                post.contents@[i],
                dto.slide as int,
                dto.screen as int,
            ) ==> !content_active_for(post.contents@[j], dto.slide as int, dto.screen as int),
        ({
            let first = post.contents@[mid.contents@.len() - 1];
            &&& first.id == pre.next_content_id
            &&& first.file_path == path1
            &&& first.archive == Archival::Archived(t2)
        }),
{
    assert forall|i: int, j: int|
        0 <= i < j < post.contents@.len() && content_active_for(
            post.contents@[i],
            dto.slide as int,
            dto.screen as int,
        ) implies !content_active_for(post.contents@[j], dto.slide as int, dto.screen as int) by {
        if content_active_for(post.contents@[j], dto.slide as int, dto.screen as int) {
            assert(both_active_same_target(post.contents@[i], post.contents@[j]));
        }
    }
    let fi = mid.contents@.len() - 1;
    assert(mid.contents@[fi] == mid.contents@.last());
    assert(mid.contents@[fi].archive is Active && mid.contents@[fi].slide == dto.slide
        && mid.contents@[fi].screen == dto.screen);
    assert(content_fields_except_archive(mid.contents@[fi], post.contents@[fi]));
}

} // verus!
