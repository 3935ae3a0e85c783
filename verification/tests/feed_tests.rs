use signage::config::FEED_ENTRY_DURATION;
use signage::domain::{Archival, Content, Screen, Slide, SlideGroup};
use signage::dtos::{ContentType, FeedEntryDto};
use signage::feed::{compute_feed, FeedRow};
use signage::store::SignageStore;

const NOW: i64 = 1_000_000;
const YESTERDAY: i64 = 900_000;
const TOMORROW: i64 = 1_100_000;

fn row(
    group_id: i32,
    priority: i32,
    slide_id: i32,
    slide_position: i32,
    content: Option<&str>,
) -> FeedRow {
    FeedRow {
        group_id,
        priority,
        group_start_date: YESTERDAY,
        slide_id,
        slide_position,
        content_type: content.map(|_| ContentType::Image),
        file_path: content.map(|p| p.to_string()),
    }
}

fn entry(file_path: &str) -> FeedEntryDto {
    FeedEntryDto {
        content_type: ContentType::Image,
        file_path: file_path.to_string(),
        duration: 10000,
    }
}

#[test]
fn feed_priority_filtering_and_placeholder() {
    // two groups share the feed; the pinned one hides the normal one, and
    // a slide without content still occupies one placeholder slot
    let rows = vec![
        row(1, 1, 1, 0, Some("img1")),
        row(1, 1, 2, 1, None),
        row(2, 0, 3, 0, Some("img2")),
    ];
    let feed = compute_feed(&rows, 10000);
    assert_eq!(feed, vec![entry("img1"), entry("")]);
}

#[test]
fn feed_empty_rows() {
    let feed = compute_feed(&vec![], 10000);
    assert_eq!(feed, vec![]);
}

#[test]
fn feed_is_deterministic() {
    let rows = vec![
        row(1, 2, 1, 0, Some("a")),
        row(2, 2, 2, 0, None),
        row(3, 0, 3, 0, Some("b")),
    ];
    assert_eq!(compute_feed(&rows, 7000), compute_feed(&rows, 7000));
}

fn group(id: i32, priority: i32, hidden: bool, published: bool, start: i64) -> SlideGroup {
    SlideGroup {
        id,
        title: "Lorem Ipsum".to_string(),
        priority,
        hidden,
        created_by: "Lorem Ipsum".to_string(),
        start_date: start,
        end_date: None,
        archive: Archival::Active,
        published,
    }
}

fn slide(id: i32, position: i32, group: i32, archive: Archival) -> Slide {
    Slide { id, position, group, archive }
}

fn content(
    id: i32,
    slide: i32,
    screen: i32,
    content_type: ContentType,
    path: &str,
    archive: Archival,
) -> Content {
    Content { id, slide, screen, content_type, file_path: path.to_string(), archive }
}

/// A snapshot mirroring every eligibility rule at once: archived, hidden,
/// unpublished, not-started and expired groups; archived slides; archived,
/// missing and per-screen content.
fn seeded_store() -> SignageStore {
    let mut store = SignageStore::new();
    store.screens.push(Screen { id: 1, name: "Left".to_string(), position: 0 });
    store.screens.push(Screen { id: 2, name: "Center".to_string(), position: 1 });
    store.next_screen_id = 3;

    // one with lower priority
    store.groups.push(group(1, 0, false, true, YESTERDAY));
    // one archived
    let mut archived = group(2, 1, false, true, YESTERDAY);
    archived.archive = Archival::Archived(YESTERDAY);
    store.groups.push(archived);
    // one "normal" (hidden)
    store.groups.push(group(3, 1, true, true, YESTERDAY));
    // one not published
    store.groups.push(group(4, 1, false, false, YESTERDAY));
    // one not started
    store.groups.push(group(5, 1, false, true, TOMORROW));
    // one "normal" (non hidden)
    store.groups.push(group(6, 1, false, true, YESTERDAY));
    // one already ended
    let mut ended = group(7, 1, false, true, YESTERDAY);
    ended.end_date = Some(YESTERDAY);
    store.groups.push(ended);
    store.next_group_id = 8;

    // dummy slides/content on groups that won't show up
    let hidden_groups = [1, 2, 4, 5, 7];
    for (k, g) in hidden_groups.iter().enumerate() {
        let id = (k + 1) as i32;
        store.slides.push(slide(id, 0, *g, Archival::Active));
        store.contents.push(content(
            id,
            id,
            1,
            ContentType::Image,
            &format!("slide_{}_content_0", id),
            Archival::Active,
        ));
    }
    // an archived slide (will not be shown)
    store.slides.push(slide(6, 0, 6, Archival::Archived(YESTERDAY)));
    store
        .contents
        .push(content(6, 6, 1, ContentType::Image, "slide_6_content_0", Archival::Active));
    // a slide with archived content (will be shown as empty)
    store.slides.push(slide(7, 2, 6, Archival::Active));
    store.contents.push(content(
        7,
        7,
        1,
        ContentType::Image,
        "slide_7_content_0",
        Archival::Archived(YESTERDAY),
    ));
    // a slide with both archived and non-archived content
    store.slides.push(slide(8, 1, 6, Archival::Active));
    store.contents.push(content(
        8,
        8,
        1,
        ContentType::Image,
        "slide_8_content_0",
        Archival::Archived(YESTERDAY),
    ));
    store
        .contents
        .push(content(9, 8, 1, ContentType::Image, "slide_8_content_1", Archival::Active));
    // a slide with content only on the other screen
    store.slides.push(slide(9, 3, 6, Archival::Active));
    store
        .contents
        .push(content(10, 9, 2, ContentType::Image, "slide_9_content_0", Archival::Active));
    // a "normal" slide with image content
    store.slides.push(slide(10, 4, 6, Archival::Active));
    store
        .contents
        .push(content(11, 10, 1, ContentType::Image, "slide_10_content_0", Archival::Active));
    // a slide on the hidden group, with content on both screens
    store.slides.push(slide(11, 0, 3, Archival::Active));
    store
        .contents
        .push(content(12, 11, 1, ContentType::Html, "slide_11_content_0", Archival::Active));
    store
        .contents
        .push(content(13, 11, 2, ContentType::Video, "slide_11_content_1", Archival::Active));
    store.next_slide_id = 12;
    store.next_content_id = 14;
    store
}

#[test]
fn feed_computation() {
    let store = seeded_store();

    let rows = store.feed_query(1, NOW);
    let feed = compute_feed(&rows, FEED_ENTRY_DURATION);
    assert_eq!(
        feed,
        vec![
            FeedEntryDto {
                content_type: ContentType::Image,
                file_path: "slide_8_content_1".to_string(),
                duration: FEED_ENTRY_DURATION,
            },
            FeedEntryDto {
                content_type: ContentType::Image,
                file_path: "".to_string(), // slide 7
                duration: FEED_ENTRY_DURATION,
            },
            FeedEntryDto {
                content_type: ContentType::Image,
                file_path: "".to_string(), // slide 9
                duration: FEED_ENTRY_DURATION,
            },
            FeedEntryDto {
                content_type: ContentType::Image,
                file_path: "slide_10_content_0".to_string(),
                duration: FEED_ENTRY_DURATION,
            },
        ]
    );

    let rows = store.feed_query(2, NOW);
    let feed = compute_feed(&rows, FEED_ENTRY_DURATION);
    assert_eq!(
        feed,
        vec![
            FeedEntryDto {
                content_type: ContentType::Image,
                file_path: "".to_string(), // slide 8
                duration: FEED_ENTRY_DURATION,
            },
            FeedEntryDto {
                content_type: ContentType::Image,
                file_path: "".to_string(), // slide 7
                duration: FEED_ENTRY_DURATION,
            },
            FeedEntryDto {
                content_type: ContentType::Image,
                file_path: "slide_9_content_0".to_string(),
                duration: FEED_ENTRY_DURATION,
            },
            FeedEntryDto {
                content_type: ContentType::Image,
                file_path: "".to_string(), // slide 10
                duration: FEED_ENTRY_DURATION,
            },
        ]
    );
}

#[test]
fn feed_query_rows_carry_group_data() {
    let store = seeded_store();
    let rows = store.feed_query(1, NOW);
    // one row per eligible slide: group 6's four active slides, group 1's
    // one slide; pinned group first, sorted by position within it
    assert_eq!(rows.len(), 5);
    assert!(rows[0..4].iter().all(|r| r.group_id == 6 && r.priority == 1));
    assert_eq!(rows[4].group_id, 1);
    assert_eq!(rows[4].priority, 0);
    let positions: Vec<i32> = rows[0..4].iter().map(|r| r.slide_position).collect();
    assert_eq!(positions, vec![1, 2, 3, 4]);
}
