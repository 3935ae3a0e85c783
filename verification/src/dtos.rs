//! Data-transfer types exchanged between the signage service and its clients.
//!
//! Instants are carried as milliseconds since the Unix epoch; an absent
//! timestamp (`None`) stands for "not set" (no end date, not archived).

use vstd::prelude::*;

verus! {

/// The kind of asset a slide shows on a screen.
#[derive(Clone, Copy, Debug, PartialEq, Eq, Structural)]
pub enum ContentType {
    Html,
    Image,
    Video,
}

impl Default for ContentType {
    /// Slides without explicit content default to an image entry.
    fn default() -> (r: Self)
        ensures
            r == ContentType::Image,
    {
        ContentType::Image
    }
}

/// Error payload pushed to clients in place of a successful response.
#[derive(Clone, Debug, PartialEq, Eq)]
pub struct AppErrorDto {
    pub msg: String,
}

pub ghost struct AppErrorDtoView {
    pub msg: Seq<char>,
}

impl DeepView for AppErrorDto {
    type V = AppErrorDtoView;

    open spec fn deep_view(&self) -> AppErrorDtoView {
        AppErrorDtoView { msg: self.msg@ }
    }
}

/// A physical display, listed in display order.
#[derive(Clone, Debug, PartialEq, Eq)]
pub struct ScreenDto {
    pub id: i32,
    pub name: String,
    pub position: i32,
}

pub ghost struct ScreenDtoView {
    pub id: int,
    pub name: Seq<char>,
    pub position: int,
}

impl DeepView for ScreenDto {
    type V = ScreenDtoView;

    open spec fn deep_view(&self) -> ScreenDtoView {
        ScreenDtoView { id: self.id as int, name: self.name@, position: self.position as int }
    }
}

/// Identifier of a freshly created record.
#[derive(Clone, Copy, Debug, PartialEq, Eq, Structural)]
pub struct CreatedDto {
    pub id: i32,
}

/// Request payload for creating a screen.
#[derive(Clone, Debug, PartialEq, Eq)]
pub struct CreateScreenDto {
    pub name: String,
    pub position: i32,
}

pub ghost struct CreateScreenDtoView {
    pub name: Seq<char>,
    pub position: int,
}

impl DeepView for CreateScreenDto {
    type V = CreateScreenDtoView;

    open spec fn deep_view(&self) -> CreateScreenDtoView {
        CreateScreenDtoView { name: self.name@, position: self.position as int }
    }
}

/// A slide group with its (possibly filtered) slides, as served to admins.
#[derive(Clone, Debug, PartialEq, Eq)]
pub struct SlideGroupDto {
    pub id: i32,
    pub title: String,
    pub priority: i32,
    pub hidden: bool,
    pub created_by: String,
    pub start_date: i64,
    pub end_date: Option<i64>,
    pub archive_date: Option<i64>,
    pub published: bool,
    pub slides: Vec<SlideDto>,
}

pub ghost struct SlideGroupDtoView {
    pub id: int,
    pub title: Seq<char>,
    pub priority: int,
    pub hidden: bool,
    pub created_by: Seq<char>,
    pub start_date: int,
    pub end_date: Option<i64>,
    pub archive_date: Option<i64>,
    pub published: bool,
    pub slides: Seq<SlideDtoView>,
}

impl DeepView for SlideGroupDto {
    type V = SlideGroupDtoView;

    open spec fn deep_view(&self) -> SlideGroupDtoView {
        SlideGroupDtoView {
            id: self.id as int,
            title: self.title@,
            priority: self.priority as int,
            hidden: self.hidden,
            created_by: self.created_by@,
            start_date: self.start_date as int,
            end_date: self.end_date,
            archive_date: self.archive_date,
            published: self.published,
            slides: self.slides.deep_view(),
        }
    }
}

/// Request payload for creating or updating a slide group.
#[derive(Clone, Debug, PartialEq, Eq)]
pub struct CreateSlideGroupDto {
    pub title: String,
    pub priority: i32,
    pub hidden: bool,
    pub start_date: i64,
    pub end_date: Option<i64>,
}

pub ghost struct CreateSlideGroupDtoView {
    pub title: Seq<char>,
    pub priority: int,
    pub hidden: bool,
    pub start_date: int,
    pub end_date: Option<i64>,
}

impl DeepView for CreateSlideGroupDto {
    type V = CreateSlideGroupDtoView;

    open spec fn deep_view(&self) -> CreateSlideGroupDtoView {
        CreateSlideGroupDtoView {
            title: self.title@,
            priority: self.priority as int,
            hidden: self.hidden,
            start_date: self.start_date as int,
            end_date: self.end_date,
        }
    }
}

/// Request payload for creating a slide within a group.
#[derive(Clone, Copy, Debug, PartialEq, Eq, Structural)]
pub struct CreateSlideDto {
    pub position: i32,
    pub slide_group: i32,
}

/// Request payload for the transactional bulk move: slide id to new position.
#[derive(Clone, Debug, PartialEq, Eq)]
pub struct MoveSlidesDto {
    pub new_positions: Vec<(i32, i32)>,
}

impl DeepView for MoveSlidesDto {
    type V = Seq<(i32, i32)>;

    open spec fn deep_view(&self) -> Seq<(i32, i32)> {
        self.new_positions@
    }
}

/// One slide with its per-screen content rows.
#[derive(Clone, Debug, PartialEq, Eq)]
pub struct SlideDto {
    pub id: i32,
    pub position: i32,
    pub archive_date: Option<i64>,
    pub content: Vec<ContentDto>,
}

pub ghost struct SlideDtoView {
    pub id: int,
    pub position: int,
    pub archive_date: Option<i64>,
    pub content: Seq<ContentDtoView>,
}

impl DeepView for SlideDto {
    type V = SlideDtoView;

    open spec fn deep_view(&self) -> SlideDtoView {
        SlideDtoView {
            id: self.id as int,
            position: self.position as int,
            archive_date: self.archive_date,
            content: self.content.deep_view(),
        }
    }
}

/// Request payload accompanying an uploaded file.
#[derive(Clone, Copy, Debug, PartialEq, Eq, Structural)]
pub struct CreateContentDto {
    pub slide: i32,
    pub screen: i32,
    pub content_type: ContentType,
}

/// One content row: the asset a slide shows on one screen.
#[derive(Clone, Debug, PartialEq, Eq)]
pub struct ContentDto {
    pub id: i32,
    pub screen: i32,
    pub content_type: ContentType,
    pub file_path: String,
    pub archive_date: Option<i64>,
}

pub ghost struct ContentDtoView {
    pub id: int,
    pub screen: int,
    pub content_type: ContentType,
    pub file_path: Seq<char>,
    pub archive_date: Option<i64>,
}

impl DeepView for ContentDto {
    type V = ContentDtoView;

    open spec fn deep_view(&self) -> ContentDtoView {
        ContentDtoView {
            id: self.id as int,
            screen: self.screen as int,
            content_type: self.content_type,
            file_path: self.file_path@,
            archive_date: self.archive_date,
        }
    }
}

/// One step of a screen's computed programme.
#[derive(Debug, PartialEq, Eq)]
pub struct FeedEntryDto {
    pub content_type: ContentType,
    pub file_path: String,
    /// Display time in milliseconds.
    pub duration: i32,
}

pub ghost struct FeedEntryDtoView {
    pub content_type: ContentType,
    pub file_path: Seq<char>,
    pub duration: int,
}

impl DeepView for FeedEntryDto {
    type V = FeedEntryDtoView;

    open spec fn deep_view(&self) -> FeedEntryDtoView {
        FeedEntryDtoView {
            content_type: self.content_type,
            file_path: self.file_path@,
            duration: self.duration as int,
        }
    }
}

impl Clone for FeedEntryDto {
    fn clone(&self) -> (r: Self)
        ensures
            r == *self,
    {
        FeedEntryDto {
            content_type: self.content_type,
            file_path: self.file_path.clone(),
            duration: self.duration,
        }
    }
}

/// The logged-in user as reported to the admin UI.
#[derive(Clone, Debug, PartialEq, Eq)]
pub struct SessionDto {
    pub username: String,
    pub is_admin: bool,
}

pub ghost struct SessionDtoView {
    pub username: Seq<char>,
    pub is_admin: bool,
}

impl DeepView for SessionDto {
    type V = SessionDtoView;

    open spec fn deep_view(&self) -> SessionDtoView {
        SessionDtoView { username: self.username@, is_admin: self.is_admin }
    }
}

} // verus!
