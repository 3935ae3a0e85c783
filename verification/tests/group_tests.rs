use signage::dtos::{CreateSlideGroupDto, CreatedDto, SlideGroupDto};
use signage::error::AppError;
use signage::routes::build_created_response;
use signage::store::SignageStore;

const START_DATE_MS: i64 = 1739471974;
const END_DATE_MS: i64 = 1739471975;
const NOW_MS: i64 = 1739471980;

fn util_create_slide_group(store: &mut SignageStore) {
    let created = store.create_slide_group(
        &CreateSlideGroupDto {
            title: "Lorem Ipsum".to_string(),
            priority: 0,
            hidden: false,
            start_date: START_DATE_MS,
            end_date: None,
        },
        &"johndoe".to_string(),
    );
    let resp = build_created_response("/api/slide-group", created.id);
    assert_eq!(resp.location, "/api/slide-group/1");
    assert_eq!(resp.body, CreatedDto { id: 1 });
}

fn lorem_group_dto() -> SlideGroupDto {
    SlideGroupDto {
        id: 1,
        title: "Lorem Ipsum".to_string(),
        priority: 0,
        hidden: false,
        created_by: "johndoe".to_string(),
        start_date: START_DATE_MS,
        end_date: None,
        archive_date: None,
        published: false,
        slides: vec![],
    }
}

#[test]
fn create_and_list_slide_group() {
    let mut store = SignageStore::new();
    util_create_slide_group(&mut store);

    assert_eq!(store.list_slide_groups(), vec![lorem_group_dto()]);
}

#[test]
fn create_and_get_slide_group() {
    let mut store = SignageStore::new();
    util_create_slide_group(&mut store);

    assert_eq!(store.get_slide_group(1), Ok(lorem_group_dto()));
}

#[test]
fn get_slide_group_not_found() {
    let store = SignageStore::new();

    assert_eq!(store.get_slide_group(1), Err(AppError::SlideGroupNotFound));
}

#[test]
fn update_and_list_slide_group() {
    let mut store = SignageStore::new();
    util_create_slide_group(&mut store);

    // another logged-in user updates; attribution must not change
    let result = store.update_slide_group(
        1,
        &CreateSlideGroupDto {
            title: "Lorem Ipsum".to_string(),
            priority: 1,
            hidden: false,
            start_date: START_DATE_MS,
            end_date: Some(END_DATE_MS),
        },
    );
    assert_eq!(result, Ok(()));

    assert_eq!(
        store.list_slide_groups(),
        vec![SlideGroupDto {
            id: 1,
            title: "Lorem Ipsum".to_string(),
            priority: 1,
            hidden: false,
            created_by: "johndoe".to_string(),
            start_date: START_DATE_MS,
            end_date: Some(END_DATE_MS),
            archive_date: None,
            published: false,
            slides: vec![],
        }]
    );
}

#[test]
fn update_slide_group_not_found() {
    let mut store = SignageStore::new();

    let result = store.update_slide_group(
        1,
        &CreateSlideGroupDto {
            title: "Lorem Ipsum".to_string(),
            priority: 1,
            hidden: false,
            start_date: START_DATE_MS,
            end_date: Some(END_DATE_MS),
        },
    );
    let err = result.unwrap_err();
    assert_eq!(err, AppError::SlideGroupNotFound);
    assert_eq!(err.status(), 404);
    assert_eq!(err.to_dto().msg, "slide group not found");
}

#[test]
fn update_slide_group_archived() {
    let mut store = SignageStore::new();
    util_create_slide_group(&mut store);

    assert_eq!(store.archive_slide_group(1, NOW_MS), Ok(()));

    let result = store.update_slide_group(
        1,
        &CreateSlideGroupDto {
            title: "Lorem Ipsum".to_string(),
            priority: 1,
            hidden: false,
            start_date: START_DATE_MS,
            end_date: Some(END_DATE_MS),
        },
    );
    let err = result.unwrap_err();
    assert_eq!(err, AppError::SlideGroupArchived);
    assert_eq!(err.status(), 403);
    assert_eq!(err.to_dto().msg, "slide group is archived and can't be edited");
}

#[test]
fn publish_slide_group() {
    let mut store = SignageStore::new();
    util_create_slide_group(&mut store);

    assert_eq!(store.publish_slide_group(1), Ok(()));

    let mut expected = lorem_group_dto();
    expected.published = true;
    assert_eq!(store.list_slide_groups(), vec![expected]);
}

#[test]
fn publish_slide_group_not_found() {
    let mut store = SignageStore::new();

    assert_eq!(store.publish_slide_group(1), Err(AppError::SlideGroupNotFound));
}

#[test]
fn publish_slide_group_archived() {
    let mut store = SignageStore::new();
    util_create_slide_group(&mut store);

    assert_eq!(store.archive_slide_group(1, NOW_MS), Ok(()));

    let err = store.publish_slide_group(1).unwrap_err();
    assert_eq!(err, AppError::SlideGroupArchived);
    assert_eq!(err.status(), 403);
    assert_eq!(err.to_dto().msg, "slide group is archived and can't be edited");
}

#[test]
fn archive_slide_group() {
    let mut store = SignageStore::new();
    util_create_slide_group(&mut store);

    assert_eq!(store.archive_slide_group(1, NOW_MS), Ok(()));

    // archived groups leave the listing
    assert_eq!(store.list_slide_groups(), Vec::<SlideGroupDto>::new());

    // but stay fetchable by id, with their archive date
    let fetched = store.get_slide_group(1).unwrap();
    assert_eq!(fetched.id, 1);
    assert_eq!(fetched.archive_date, Some(NOW_MS));
}

#[test]
fn archive_slide_group_not_found() {
    let mut store = SignageStore::new();

    assert_eq!(store.archive_slide_group(1, NOW_MS), Err(AppError::SlideGroupNotFound));
}

#[test]
fn archive_slide_group_already_archived() {
    let mut store = SignageStore::new();
    util_create_slide_group(&mut store);

    assert_eq!(store.archive_slide_group(1, NOW_MS), Ok(()));

    // archiving again throws an error
    let err = store.archive_slide_group(1, NOW_MS + 1).unwrap_err();
    assert_eq!(err, AppError::SlideGroupArchived);
    assert_eq!(err.status(), 403);
    assert_eq!(err.to_dto().msg, "slide group is archived and can't be edited");
}
