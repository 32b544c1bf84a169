use rssscribe::feed::{
    build_feed, build_item, extract_field, linked_thumbnail, render_feed, UNKNOWN_UPLOADER,
};
use rssscribe::record::{parse_lines, VideoRecord};

fn records(out: &str) -> Vec<VideoRecord> {
    parse_lines(out).records
}

#[test]
fn no_records_give_empty_channel() {
    let feed = build_feed(&Vec::new(), "http://x");
    assert_eq!(feed.title, "Uploader not found");
    assert_eq!(feed.title, UNKNOWN_UPLOADER);
    assert_eq!(feed.link, "http://x");
    assert!(feed.items.is_empty());
}

#[test]
fn single_record_end_to_end() {
    let recs = records(
        "{\"title\":\"A\",\"original_url\":\"http://x/1\",\"uploader\":\"Bob\",\"upload_date\":\"20230115\",\"thumbnail\":\"http://x/thumb1\"}\n",
    );
    let feed = build_feed(&recs, "http://x");
    assert_eq!(feed.title, "Bob");
    assert_eq!(feed.link, "http://x");
    assert_eq!(feed.items.len(), 1);
    let item = &feed.items[0];
    assert_eq!(item.title.as_deref(), Some("A"));
    assert_eq!(item.link.as_deref(), Some("http://x/1"));
    assert_eq!(
        item.content.as_deref(),
        Some("<a href=\"http://x/1\"><img src=\"http://x/thumb1\"></a>")
    );
    assert_eq!(item.pub_date.as_deref(), Some("Sun, 15 Jan 2023 00:00:00 +0000"));
    assert_eq!(item.author.as_deref(), Some("Bob"));
    assert_eq!(item.description, None);
}

#[test]
fn missing_thumbnail_gives_no_content() {
    let recs = records("{\"title\":\"A\",\"original_url\":\"http://x/1\"}");
    let item = build_item(&recs[0]);
    assert_eq!(item.content, None);
    assert_eq!(item.title.as_deref(), Some("A"));
    assert_eq!(item.link.as_deref(), Some("http://x/1"));
}

#[test]
fn missing_link_gives_no_content() {
    let recs = records("{\"thumbnail\":\"http://x/t\"}");
    let item = build_item(&recs[0]);
    assert_eq!(item.content, None);
    assert_eq!(item.link, None);
}

#[test]
fn missing_uploader_falls_back() {
    let recs = records("{\"title\":\"A\"}\n{\"uploader\":\"Later\"}");
    let feed = build_feed(&recs, "http://x");
    assert_eq!(feed.title, "Uploader not found");
    assert_eq!(feed.items.len(), 2);
    assert_eq!(feed.items[1].author.as_deref(), Some("Later"));
}

#[test]
fn bad_date_leaves_no_pub_date() {
    let recs = records("{\"upload_date\":\"20230230\"}\n{\"upload_date\":20230115}");
    let feed = build_feed(&recs, "u");
    assert_eq!(feed.items[0].pub_date, None);
    assert_eq!(feed.items[1].pub_date.as_deref(), Some("Sun, 15 Jan 2023 00:00:00 +0000"));
}

#[test]
fn items_keep_record_order() {
    let recs = records("{\"title\":\"one\"}\n{\"title\":\"two\"}\n{\"title\":\"three\"}");
    let feed = build_feed(&recs, "u");
    let titles: Vec<_> = feed.items.iter().map(|i| i.title.clone().unwrap()).collect();
    assert_eq!(titles, vec!["one", "two", "three"]);
}

#[test]
fn field_text_is_trimmed_json_text() {
    let recs = records("{\"title\":\"  spaced  \",\"uploader\":42}");
    assert_eq!(extract_field(&recs[0], "title").as_deref(), Some("spaced"));
    assert_eq!(extract_field(&recs[0], "uploader").as_deref(), Some("42"));
    assert_eq!(extract_field(&recs[0], "description"), None);
}

#[test]
fn linked_thumbnail_needs_both_parts() {
    let l = Some("L".to_string());
    let t = Some("T".to_string());
    assert_eq!(linked_thumbnail(&l, &t).as_deref(), Some("<a href=\"L\"><img src=\"T\"></a>"));
    assert_eq!(linked_thumbnail(&None, &t), None);
    assert_eq!(linked_thumbnail(&l, &None), None);
}

#[test]
fn empty_feed_renders_empty_channel() {
    let xml = render_feed(&build_feed(&Vec::new(), "http://x"));
    assert!(xml.contains("<rss"));
    assert!(xml.contains("<channel>"));
    assert!(xml.contains("<title>Uploader not found</title>"));
    assert!(xml.contains("<link>http://x</link>"));
    assert!(!xml.contains("<item>"));
}

#[test]
fn item_fields_render_into_document() {
    let recs = records(
        "{\"title\":\"A\",\"original_url\":\"http://x/1\",\"uploader\":\"Bob\",\"upload_date\":\"20230115\",\"thumbnail\":\"http://x/thumb1\"}",
    );
    let xml = render_feed(&build_feed(&recs, "http://x"));
    assert!(xml.contains("<title>Bob</title>"));
    assert!(xml.contains("<item><title>A</title><link>http://x/1</link>"));
    assert!(xml.contains("<author>Bob</author>"));
    assert!(xml.contains("<pubDate>Sun, 15 Jan 2023 00:00:00 +0000</pubDate>"));
    assert!(xml.contains("content:encoded"));
    assert!(xml.contains("<img src=\"http://x/thumb1\">"));
}
