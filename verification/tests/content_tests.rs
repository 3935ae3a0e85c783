use signage::dtos::{
    ContentDto, ContentType, CreateContentDto, CreateSlideDto, CreateSlideGroupDto, CreatedDto,
    SlideDto, SlideGroupDto,
};
use signage::error::AppError;
use signage::files::upload_file;
use signage::store::SignageStore;

const START_DATE_MS: i64 = 1739471974;
const NOW_MS: i64 = 1739471980;

const HELLO_PATH: &str = "82/8286230721b68e5d0e15dabf39d5938611b053c320f95ed8a4fa556fd41e7457.html";
const LOREM_PATH: &str = "39/39acde5bed34e4bd9a0374f628ea4c64fb515f92a9aa981e8a8d8414ef9ad799.html";

fn util_store_with_slide() -> SignageStore {
    let mut store = SignageStore::new();
    // screens exist by default in a fresh service
    store.setup_screens();
    let created = store.create_slide_group(
        &CreateSlideGroupDto {
            title: "Lorem Ipsum".to_string(),
            priority: 0,
            hidden: false,
            start_date: START_DATE_MS,
            end_date: None,
        },
        &"johndoe".to_string(),
    );
    assert_eq!(created, CreatedDto { id: 1 });
    let created = store.create_slide(&CreateSlideDto { position: 1, slide_group: 1 });
    assert_eq!(created, CreatedDto { id: 1 });
    store
}

fn upload(store: &mut SignageStore, slide: i32, screen: i32, body: &str, now: i64) -> CreatedDto {
    let path = upload_file(&body.as_bytes().to_vec(), Some("html"));
    store
        .create_content(
            &CreateContentDto { slide, screen, content_type: ContentType::Html },
            path,
            now,
        )
        .unwrap()
}

#[test]
fn create_content_and_list_slide_groups() {
    let mut store = util_store_with_slide();

    let created = upload(&mut store, 1, 1, "<p>hello world</p>", NOW_MS);
    assert_eq!(created, CreatedDto { id: 1 });

    let created = upload(&mut store, 1, 2, "<p>lorem ipsum</p>", NOW_MS);
    assert_eq!(created, CreatedDto { id: 2 });

    assert_eq!(
        store.list_slide_groups(),
        vec![SlideGroupDto {
            id: 1,
            title: "Lorem Ipsum".to_string(),
            priority: 0,
            hidden: false,
            created_by: "johndoe".to_string(),
            start_date: START_DATE_MS,
            end_date: None,
            archive_date: None,
            published: false,
            slides: vec![SlideDto {
                id: 1,
                position: 1,
                archive_date: None,
                content: vec![
                    ContentDto {
                        id: 1,
                        screen: 1,
                        content_type: ContentType::Html,
                        file_path: HELLO_PATH.to_string(),
                        archive_date: None,
                    },
                    ContentDto {
                        id: 2,
                        screen: 2,
                        content_type: ContentType::Html,
                        file_path: LOREM_PATH.to_string(),
                        archive_date: None,
                    },
                ],
            }],
        }]
    );

    // the stored paths are content-addressed: same bytes, same path
    assert_eq!(upload_file(&b"<p>hello world</p>".to_vec(), Some("html")), HELLO_PATH);
    assert_eq!(upload_file(&b"<p>lorem ipsum</p>".to_vec(), Some("html")), LOREM_PATH);
}

#[test]
fn overwrite_content_and_list_slide_groups() {
    let mut store = util_store_with_slide();

    let created = upload(&mut store, 1, 1, "<p>hello world</p>", NOW_MS);
    assert_eq!(created, CreatedDto { id: 1 });

    let created = upload(&mut store, 1, 1, "<p>lorem ipsum</p>", NOW_MS + 1);
    assert_eq!(created, CreatedDto { id: 2 });

    // only the new row is active: exactly one content per (slide, screen)
    assert_eq!(
        store.list_slide_groups(),
        vec![SlideGroupDto {
            id: 1,
            title: "Lorem Ipsum".to_string(),
            priority: 0,
            hidden: false,
            created_by: "johndoe".to_string(),
            start_date: START_DATE_MS,
            end_date: None,
            archive_date: None,
            published: false,
            slides: vec![SlideDto {
                id: 1,
                position: 1,
                archive_date: None,
                content: vec![ContentDto {
                    id: 2,
                    screen: 1,
                    content_type: ContentType::Html,
                    file_path: LOREM_PATH.to_string(),
                    archive_date: None,
                }],
            }],
        }]
    );

    // the previous upload's row is retained (archived) under its old path,
    // so the previous file remains resolvable
    let full = store.get_slide_group(1).unwrap();
    assert_eq!(full.slides.len(), 1);
    let first_row = &store.contents[0];
    assert_eq!(first_row.id, 1);
    assert_eq!(first_row.file_path, HELLO_PATH);
    assert!(first_row.archive.is_archived());
    // and identical bytes still map to the same path
    assert_eq!(upload_file(&b"<p>hello world</p>".to_vec(), Some("html")), HELLO_PATH);
}

#[test]
fn missing_slide() {
    let mut store = SignageStore::new();
    store.setup_screens();

    let path = upload_file(&b"<p>hello world</p>".to_vec(), Some("html"));
    let err = store
        .create_content(
            &CreateContentDto { slide: 1, screen: 1, content_type: ContentType::Html },
            path,
            NOW_MS,
        )
        .unwrap_err();
    assert_eq!(err, AppError::SlideNotFound);
    assert_eq!(err.status(), 404);
    assert_eq!(err.to_dto().msg, "slide not found");
}

#[test]
fn missing_screen() {
    let mut store = SignageStore::new();

    let path = upload_file(&b"<p>hello world</p>".to_vec(), Some("html"));
    let err = store
        .create_content(
            &CreateContentDto { slide: 1, screen: 1, content_type: ContentType::Html },
            path,
            NOW_MS,
        )
        .unwrap_err();
    assert_eq!(err, AppError::ScreenNotFound);
    assert_eq!(err.to_dto().msg, "screen not found");
}

#[test]
fn upload_path_without_extension() {
    // no known extension: the file name is the bare digest
    assert_eq!(
        upload_file(&b"<p>hello world</p>".to_vec(), None),
        "82/8286230721b68e5d0e15dabf39d5938611b053c320f95ed8a4fa556fd41e7457"
    );
}
