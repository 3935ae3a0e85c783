use signage::dtos::{ContentType, FeedEntryDto};
use signage::playback::{calculate_next_slide, select_current_entry};

fn entry(file_path: &str, duration: i32) -> FeedEntryDto {
    FeedEntryDto { content_type: ContentType::Image, file_path: file_path.to_string(), duration }
}

#[test]
fn playback_selects_by_wall_clock() {
    // total cycle 30000 ms: 10000 then 20000
    let feed = vec![entry("a", 10000), entry("b", 20000)];

    // offset 25000 falls in the second entry, 5000 ms from the cycle's end
    assert_eq!(select_current_entry(&feed, 25000), Some((5000, entry("b", 20000))));

    // offset 5000 (35000 mod 30000) falls in the first entry
    assert_eq!(select_current_entry(&feed, 35000), Some((5000, entry("a", 10000))));
}

#[test]
fn playback_is_periodic() {
    let feed = vec![entry("a", 10000), entry("b", 20000)];
    // one full cycle later the same entry shows with the same remainder
    assert_eq!(select_current_entry(&feed, 25000), select_current_entry(&feed, 55000));
    assert_eq!(select_current_entry(&feed, 0), select_current_entry(&feed, 30000));
}

#[test]
fn playback_empty_feed_shows_nothing() {
    assert_eq!(select_current_entry(&vec![], 12345), None);
}

#[test]
fn playback_zero_durations_show_nothing() {
    let feed = vec![entry("a", 0), entry("b", 0)];
    assert_eq!(select_current_entry(&feed, 777), None);
}

#[test]
fn playback_boundaries() {
    let feed = vec![entry("a", 10000), entry("b", 20000)];
    // at the very start of the cycle the first entry has its full slot left
    assert_eq!(select_current_entry(&feed, 0), Some((10000, entry("a", 10000))));
    // on the first transition instant the second entry begins
    assert_eq!(select_current_entry(&feed, 10000), Some((20000, entry("b", 20000))));
    // the last instant of the cycle still shows the last entry for 1 ms
    assert_eq!(select_current_entry(&feed, 29999), Some((1, entry("b", 20000))));
}

#[test]
fn calculate_next_slide_follows_the_clock() {
    let feed = vec![entry("a", 10000)];
    let selected = calculate_next_slide(&feed).expect("a single-entry feed always selects");
    assert!(selected.0 >= 1 && selected.0 <= 10000);
    assert_eq!(selected.1, entry("a", 10000));

    assert_eq!(calculate_next_slide(&vec![]), None);
}
