//! The domain model: screens, slide groups, slides and per-screen content,
//! with their lifecycle and eligibility rules.

use vstd::prelude::*;

use crate::dtos::ContentType;

verus! {

/// Soft-deletion lifecycle: a record is either active or archived at a
/// given instant (milliseconds since the Unix epoch). Archiving is
/// irreversible; archived records are read-only and excluded from feeds.
#[derive(Clone, Copy, Debug, PartialEq, Eq, Structural)]
pub enum Archival {
    Active,
    Archived(i64),
}

impl Archival {
    pub open spec fn spec_is_archived(&self) -> bool {
        self is Archived
    }

    #[verifier::when_used_as_spec(spec_is_archived)]
    pub fn is_archived(&self) -> (r: bool)
        ensures
            r == self.spec_is_archived(),
    {
        match self {
            Archival::Active => false,
            Archival::Archived(_) => true,
        }
    }
}

/// A physical display. Created by an admin, reordered at most; never
/// deleted in normal operation.
#[derive(Debug, PartialEq, Eq)]
pub struct Screen {
    pub id: i32,
    pub name: String,
    pub position: i32,
}

pub ghost struct ScreenView {
    pub id: int,
    pub name: Seq<char>,
    pub position: int,
}

impl DeepView for Screen {
    type V = ScreenView;

    open spec fn deep_view(&self) -> ScreenView {
        ScreenView { id: self.id as int, name: self.name@, position: self.position as int }
    }
}

impl Clone for Screen {
    fn clone(&self) -> (r: Self)
        ensures
            r == *self,
    {
        Screen { id: self.id, name: self.name.clone(), position: self.position }
    }
}

/// A named, timed, prioritized collection of slides belonging to one
/// creator. Created as a draft, explicitly published, and eventually
/// archived — never hard-deleted.
#[derive(Debug, PartialEq, Eq)]
pub struct SlideGroup {
    pub id: i32,
    pub title: String,
    /// 0 = normal; above 0 the group is pinned and suppresses all groups of
    /// lower priority from every feed.
    pub priority: i32,
    /// Excluded from feeds but still editable.
    pub hidden: bool,
    pub created_by: String,
    /// Start of the visibility window, milliseconds since the Unix epoch.
    pub start_date: i64,
    /// End of the visibility window (inclusive); unbounded when absent.
    pub end_date: Option<i64>,
    pub archive: Archival,
    /// Draft versus live.
    pub published: bool,
}

pub ghost struct SlideGroupView {
    pub id: int,
    pub title: Seq<char>,
    pub priority: int,
    pub hidden: bool,
    pub created_by: Seq<char>,
    pub start_date: int,
    pub end_date: Option<i64>,
    pub archive: Archival,
    pub published: bool,
}

impl DeepView for SlideGroup {
    type V = SlideGroupView;

    open spec fn deep_view(&self) -> SlideGroupView {
        SlideGroupView {
            id: self.id as int,
            title: self.title@,
            priority: self.priority as int,
            hidden: self.hidden,
            created_by: self.created_by@,
            start_date: self.start_date as int,
            end_date: self.end_date,
            archive: self.archive,
            published: self.published,
        }
    }
}

impl Clone for SlideGroup {
    fn clone(&self) -> (r: Self)
        ensures
            r == *self,
    {
        SlideGroup {
            id: self.id,
            title: self.title.clone(),
            priority: self.priority,
            hidden: self.hidden,
            created_by: self.created_by.clone(),
            start_date: self.start_date,
            end_date: self.end_date,
            archive: self.archive,
            published: self.published,
        }
    }
}

/// One step in a group's rotation. Positions need not be unique; ties are
/// broken by id.
#[derive(Clone, Copy, Debug, PartialEq, Eq, Structural)]
pub struct Slide {
    pub id: i32,
    pub position: i32,
    /// The owning slide group's id.
    pub group: i32,
    pub archive: Archival,
}

/// The concrete asset one slide shows on one specific screen. At most one
/// active content row exists per (slide, screen) pair at any time.
#[derive(Debug, PartialEq, Eq)]
pub struct Content {
    pub id: i32,
    pub slide: i32,
    pub screen: i32,
    pub content_type: ContentType,
    /// Content-addressed path into the blob store.
    pub file_path: String,
    pub archive: Archival,
}

pub ghost struct ContentView {
    pub id: int,
    pub slide: int,
    pub screen: int,
    pub content_type: ContentType,
    pub file_path: Seq<char>,
    pub archive: Archival,
}

impl DeepView for Content {
    type V = ContentView;

    open spec fn deep_view(&self) -> ContentView {
        ContentView {
            id: self.id as int,
            slide: self.slide as int,
            screen: self.screen as int,
            content_type: self.content_type,
            file_path: self.file_path@,
            archive: self.archive,
        }
    }
}

impl Clone for Content {
    fn clone(&self) -> (r: Self)
        ensures
            r == *self,
    {
        Content {
            id: self.id,
            slide: self.slide,
            screen: self.screen,
            content_type: self.content_type,
            file_path: self.file_path.clone(),
            archive: self.archive,
        }
    }
}

/// A group is eligible for display exactly when it is live, visible and
/// inside its time window: not archived, not hidden, published, started,
/// and not yet ended (an absent end date never ends).
pub open spec fn group_eligible(g: SlideGroup, now: int) -> bool {
    &&& g.archive is Active
    &&& !g.hidden
    &&& g.published
    &&& g.start_date as int <= now
    &&& match g.end_date {
        None => true,
        Some(e) => e as int >= now,
    }
}

/// Whether a group is eligible, decided in executable code.
pub fn check_group_eligible(g: &SlideGroup, now: i64) -> (r: bool)
    ensures
        r == group_eligible(*g, now as int),
{
    !g.archive.is_archived() && !g.hidden && g.published && g.start_date <= now && (match g.end_date {
        None => true,
        Some(e) => e >= now,
    })
}

} // verus!
