use signage::api::get_screen_feed_url;
use signage::config::{resolve_entry_duration, FEED_ENTRY_DURATION};
use signage::dtos::{AppErrorDto, ContentType, CreateScreenDto, CreateSlideGroupDto, FeedEntryDto, ScreenDto};
use signage::error::AppError;
use signage::routes::{build_created_response, Lang};
use signage::scheme::{scheme_for, RequestScheme};
use signage::store::SignageStore;
use signage::stream::{should_log_error, tick_message, FeedMessage};
use signage::utils::fmt_if;

#[test]
fn create_and_list_screens() {
    let mut store = SignageStore::new();

    let created = store.create_screen(&CreateScreenDto { name: "Left".to_string(), position: 0 });
    let resp = build_created_response("/api/screen", created.id);
    assert_eq!(resp.location, "/api/screen/1");
    assert_eq!(resp.body.id, 1);

    let created = store.create_screen(&CreateScreenDto { name: "Right".to_string(), position: 2 });
    assert_eq!(created.id, 2);
    let created = store.create_screen(&CreateScreenDto { name: "Center".to_string(), position: 1 });
    assert_eq!(created.id, 3);

    assert_eq!(
        store.list_screens(),
        vec![
            ScreenDto { id: 1, name: "Left".to_string(), position: 0 },
            ScreenDto { id: 3, name: "Center".to_string(), position: 1 },
            ScreenDto { id: 2, name: "Right".to_string(), position: 2 },
        ]
    );
}

#[test]
fn health() {
    assert_eq!(signage::routes::health(), "OK");
}

#[test]
fn setup_screens_seeds_defaults_once() {
    let mut store = SignageStore::new();
    store.setup_screens();
    assert_eq!(
        store.list_screens(),
        vec![
            ScreenDto { id: 1, name: "Left".to_string(), position: 0 },
            ScreenDto { id: 2, name: "Center".to_string(), position: 1 },
            ScreenDto { id: 3, name: "Right".to_string(), position: 2 },
        ]
    );
    // a second run must not add more screens
    store.setup_screens();
    assert_eq!(store.list_screens().len(), 3);
}

#[test]
fn unpin_slide_groups_resets_active_priorities() {
    let mut store = SignageStore::new();
    let user = "johndoe".to_string();
    let dto = |priority: i32| CreateSlideGroupDto {
        title: "Lorem Ipsum".to_string(),
        priority,
        hidden: false,
        start_date: 0,
        end_date: None,
    };
    store.create_slide_group(&dto(5), &user);
    store.create_slide_group(&dto(2), &user);
    store.create_slide_group(&dto(3), &user);
    // the archived group keeps its priority
    store.archive_slide_group(3, 100).unwrap();

    store.unpin_slide_groups();

    let groups = store.list_slide_groups();
    assert_eq!(groups.len(), 2);
    assert!(groups.iter().all(|g| g.priority == 0));
    assert_eq!(store.get_slide_group(3).unwrap().priority, 3);
}

#[test]
fn entry_duration_defaults_and_overrides() {
    assert_eq!(FEED_ENTRY_DURATION, 10000);
    assert_eq!(resolve_entry_duration(None), 10000);
    assert_eq!(resolve_entry_duration(Some(&b"15000".to_vec())), 15000);
    assert_eq!(resolve_entry_duration(Some(&b"+7".to_vec())), 7);
    assert_eq!(resolve_entry_duration(Some(&b"-5".to_vec())), -5);
    assert_eq!(resolve_entry_duration(Some(&b"2147483647".to_vec())), 2147483647);
    assert_eq!(resolve_entry_duration(Some(&b"-2147483648".to_vec())), -2147483648);
    // unparsable overrides fall back to the default
    assert_eq!(resolve_entry_duration(Some(&b"".to_vec())), 10000);
    assert_eq!(resolve_entry_duration(Some(&b"abc".to_vec())), 10000);
    assert_eq!(resolve_entry_duration(Some(&b"12x".to_vec())), 10000);
    assert_eq!(resolve_entry_duration(Some(&b"2147483648".to_vec())), 10000);
    assert_eq!(resolve_entry_duration(Some(&b"-2147483649".to_vec())), 10000);
    assert_eq!(resolve_entry_duration(Some(&b"+".to_vec())), 10000);
    assert_eq!(resolve_entry_duration(Some(&b"007".to_vec())), 7);
}

#[test]
fn error_statuses_and_messages() {
    let cases: Vec<(AppError, u16, &str)> = vec![
        (AppError::Unauthenticated, 401, "you must login to perform this action"),
        (
            AppError::FileTooBig(1048576),
            413,
            "uploaded file exceeds maximum allowed size (max is 1048576 bytes)",
        ),
        (AppError::ScreenNotFound, 404, "screen not found"),
        (AppError::SlideGroupNotFound, 404, "slide group not found"),
        (AppError::SlideGroupArchived, 403, "slide group is archived and can't be edited"),
        (AppError::SlideNotFound, 404, "slide not found"),
        (AppError::SlideArchived, 403, "slide is archived and can't be edited"),
        (AppError::DatabaseError("boom".to_string()), 500, "database error: boom"),
        (AppError::IoError("disk".to_string()), 500, "io error: disk"),
        (AppError::InternalError("bad state".to_string()), 500, "internal error: bad state"),
        (AppError::LoginUnauthorized, 403, "you do not have permission to login"),
        (
            AppError::AuthenticationFlowExpired,
            410,
            "authentication flow expired and can no longer be completed",
        ),
    ];
    for (err, status, msg) in cases {
        assert_eq!(err.status(), status);
        assert_eq!(err.to_dto(), AppErrorDto { msg: msg.to_string() });
    }
}

#[test]
fn tick_message_wraps_outcomes() {
    let entries = vec![FeedEntryDto {
        content_type: ContentType::Image,
        file_path: "x".to_string(),
        duration: 10000,
    }];
    assert_eq!(tick_message(Ok(entries.clone())), FeedMessage::Entries(entries));

    let m = tick_message(Err(AppError::SlideGroupNotFound));
    assert_eq!(
        m,
        FeedMessage::Error(AppErrorDto { msg: "slide group not found".to_string() }, 404)
    );

    assert!(!should_log_error(404));
    assert!(should_log_error(500));
    assert!(should_log_error(503));
}

#[test]
fn request_scheme_decision() {
    assert_eq!(scheme_for(Some("https"), None), RequestScheme::Https);
    assert_eq!(scheme_for(Some("http"), Some("example.com")), RequestScheme::Http);
    assert_eq!(scheme_for(Some("h2"), Some("localhost")), RequestScheme::Https);
    assert_eq!(scheme_for(None, Some("localhost")), RequestScheme::Http);
    assert_eq!(scheme_for(None, Some("0.0.0.0")), RequestScheme::Http);
    assert_eq!(scheme_for(None, Some("127.0.0.1")), RequestScheme::Http);
    assert_eq!(scheme_for(None, Some("example.com")), RequestScheme::Https);
    assert_eq!(scheme_for(None, None), RequestScheme::Https);
    assert_eq!(RequestScheme::Http.scheme_str(), "http");
    assert_eq!(RequestScheme::Https.scheme_str(), "https");
}

#[test]
fn screen_feed_url_and_helpers() {
    assert_eq!(get_screen_feed_url(7), "/api/feed/7");
    assert_eq!(get_screen_feed_url(1234), "/api/feed/1234");
    assert_eq!(get_screen_feed_url(-3), "/api/feed/-3");
    assert_eq!(fmt_if(true, "yes", "no"), "yes");
    assert_eq!(fmt_if(false, "yes", "no"), "no");
    assert_eq!(Lang::default(), Lang::Sv);
}
