use stream_linker::error::RunError;
use stream_linker::youtube::{video_id, Item, LiveStreamingDetails, PageInfo, YouTubeDataList};

fn item(id: &str) -> Item {
    Item {
        kind: "youtube#video".to_string(),
        etag: "etag".to_string(),
        id: id.to_string(),
        live_streaming_details: LiveStreamingDetails {
            actual_start_time: "2023-04-01T10:00:00Z".to_string(),
            actual_end_time: "2023-04-01T10:30:00Z".to_string(),
            scheduled_start_time: "2023-04-01T09:55:00Z".to_string(),
        },
    }
}

fn list(items: Vec<Item>) -> YouTubeDataList {
    let found = items.len() as i64;
    YouTubeDataList {
        kind: "youtube#videoListResponse".to_string(),
        etag: "etag".to_string(),
        items,
        page_info: PageInfo { total_results: found, results_per_page: found },
    }
}

#[test]
fn video_id_of_a_watch_address() {
    assert_eq!(video_id("https://www.youtube.com/watch?v=dQw4w9WgXcQ"), "dQw4w9WgXcQ");
    assert_eq!(video_id("youtube.com/watch?v=abc"), "abc");
}

#[test]
fn video_id_of_a_watch_address_takes_what_follows_the_last_equals_sign() {
    assert_eq!(video_id("https://www.youtube.com/watch?v=abc&t=10"), "10");
    assert_eq!(video_id("https://www.youtube.com/watch?v="), "");
    assert_eq!(video_id("https://www.youtube.com/watch"), "https://www.youtube.com/watch");
}

#[test]
fn video_id_of_a_live_address() {
    assert_eq!(video_id("https://www.youtube.com/live/dQw4w9WgXcQ"), "dQw4w9WgXcQ");
    assert_eq!(video_id("https://youtube.com/live/abc/"), "");
    assert_eq!(video_id("https://youtube.com/live/abc?feature=share"), "abc?feature=share");
}

#[test]
fn video_id_of_a_bare_id_is_the_id() {
    assert_eq!(video_id("dQw4w9WgXcQ"), "dQw4w9WgXcQ");
    assert_eq!(video_id(""), "");
    assert_eq!(video_id("https://youtu.be/dQw4w9WgXcQ"), "https://youtu.be/dQw4w9WgXcQ");
    assert_eq!(video_id("a=b/c"), "a=b/c");
}

#[test]
fn video_id_prefers_the_watch_rule() {
    assert_eq!(video_id("youtube.com/live/x?next=youtube.com/watch?v=y"), "y");
}

#[test]
fn video_id_counts_characters() {
    assert_eq!(video_id("https://www.youtube.com/watch?配信=潮abc"), "潮abc");
}

#[test]
fn first_item_of_a_list() {
    let found = list(vec![item("first"), item("second")]);
    assert_eq!(found.first_item().unwrap().id, "first");
}

#[test]
fn first_item_of_an_empty_list_is_not_found() {
    let found = list(Vec::new());
    assert_eq!(found.first_item().err(), Some(RunError::NotFound));
}
