use signage::dtos::{
    CreateSlideDto, CreateSlideGroupDto, CreatedDto, MoveSlidesDto, SlideDto, SlideGroupDto,
};
use signage::error::AppError;
use signage::routes::build_created_response;
use signage::store::SignageStore;

const START_DATE_MS: i64 = 1739471974;
const NOW_MS: i64 = 1739471980;

fn util_group(store: &mut SignageStore) {
    let created = store.create_slide_group(
        &CreateSlideGroupDto {
            title: "Lorem Ipsum".to_string(),
            priority: 0,
            hidden: false,
            start_date: START_DATE_MS,
            end_date: None,
        },
        &"johndoe".to_string(),
    );
    assert_eq!(created, CreatedDto { id: 1 });
}

fn util_slide(store: &mut SignageStore, id: i32, position: i32) {
    let created = store.create_slide(&CreateSlideDto { position, slide_group: 1 });
    let resp = build_created_response("/api/slide", created.id);
    assert_eq!(resp.location, format!("/api/slide/{}", id));
    assert_eq!(resp.body, CreatedDto { id });
}

fn group_with_slides(slides: Vec<SlideDto>) -> SlideGroupDto {
    SlideGroupDto {
        id: 1,
        title: "Lorem Ipsum".to_string(),
        priority: 0,
        hidden: false,
        created_by: "johndoe".to_string(),
        start_date: START_DATE_MS,
        end_date: None,
        archive_date: None,
        published: false,
        slides,
    }
}

#[test]
fn create_slides_and_list_slide_groups() {
    let mut store = SignageStore::new();
    util_group(&mut store);
    util_slide(&mut store, 1, 1);
    util_slide(&mut store, 2, 2);
    util_slide(&mut store, 3, 3);

    assert_eq!(
        store.list_slide_groups(),
        vec![group_with_slides(vec![
            SlideDto { id: 1, position: 1, archive_date: None, content: vec![] },
            SlideDto { id: 2, position: 2, archive_date: None, content: vec![] },
            SlideDto { id: 3, position: 3, archive_date: None, content: vec![] },
        ])]
    );
}

#[test]
fn move_slides_and_list_slide_groups() {
    let mut store = SignageStore::new();
    util_group(&mut store);
    util_slide(&mut store, 1, 1);
    util_slide(&mut store, 2, 2);
    util_slide(&mut store, 3, 3);

    let result = store.bulk_move_slides(&MoveSlidesDto { new_positions: vec![(1, 5), (2, 3)] });
    assert_eq!(result, Ok(()));

    assert_eq!(
        store.list_slide_groups(),
        vec![group_with_slides(vec![
            SlideDto { id: 2, position: 3, archive_date: None, content: vec![] },
            SlideDto { id: 3, position: 3, archive_date: None, content: vec![] },
            SlideDto { id: 1, position: 5, archive_date: None, content: vec![] },
        ])]
    );
}

#[test]
fn move_non_exiting_slide() {
    let mut store = SignageStore::new();

    let err = store
        .bulk_move_slides(&MoveSlidesDto { new_positions: vec![(1, 5)] })
        .unwrap_err();
    assert_eq!(err, AppError::SlideNotFound);
    assert_eq!(err.status(), 404);
    assert_eq!(err.to_dto().msg, "slide not found");
}

#[test]
fn move_rolls_back_on_missing_slide() {
    let mut store = SignageStore::new();
    util_group(&mut store);
    util_slide(&mut store, 1, 1);
    util_slide(&mut store, 2, 2);

    let before = store.list_slide_groups();

    // one entry names a slide that does not exist: nothing may move
    let err = store
        .bulk_move_slides(&MoveSlidesDto { new_positions: vec![(1, 9), (7, 4)] })
        .unwrap_err();
    assert_eq!(err, AppError::SlideNotFound);
    assert_eq!(store.list_slide_groups(), before);
}

#[test]
fn move_rolls_back_on_archived_slide() {
    let mut store = SignageStore::new();
    util_group(&mut store);
    util_slide(&mut store, 1, 1);
    util_slide(&mut store, 2, 2);
    assert_eq!(store.delete_slide(2, NOW_MS), Ok(()));

    let before = store.get_slide_group(1);

    let err = store
        .bulk_move_slides(&MoveSlidesDto { new_positions: vec![(1, 9), (2, 4)] })
        .unwrap_err();
    assert_eq!(err, AppError::SlideArchived);
    assert_eq!(err.to_dto().msg, "slide is archived and can't be edited");
    assert_eq!(store.get_slide_group(1), before);
}

#[test]
fn delete_slide_and_list() {
    let mut store = SignageStore::new();
    util_group(&mut store);
    util_slide(&mut store, 1, 1);
    util_slide(&mut store, 2, 2);

    assert_eq!(store.delete_slide(1, NOW_MS), Ok(()));

    // the archived slide no longer shows in the listing
    assert_eq!(
        store.list_slide_groups(),
        vec![group_with_slides(vec![SlideDto {
            id: 2,
            position: 2,
            archive_date: None,
            content: vec![],
        }])]
    );

    // deleting twice is an error
    assert_eq!(store.delete_slide(1, NOW_MS + 1), Err(AppError::SlideArchived));
    // deleting a missing slide is an error
    assert_eq!(store.delete_slide(9, NOW_MS), Err(AppError::SlideNotFound));
}
