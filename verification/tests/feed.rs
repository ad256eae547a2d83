use encoding::{EncoderTrap, Encoding};
use script_utils::feed::{details_url, feed_entries, is_wanted, scan_feed, XmlItem};

fn s(v: &[&str]) -> Vec<String> {
    v.iter().map(|x| x.to_string()).collect()
}

fn cp1251(text: &str) -> Vec<u8> {
    encoding::all::WINDOWS_1251.encode(text, EncoderTrap::Strict).unwrap()
}

const FEED: &str = r#"<?xml version="1.0"?>
<rss version="2.0"><channel><title>LostFilm.TV</title>
<item><title>Доктор Кто (Doctor Who). Серия 1</title><link>http://www.lostfilm.tv/download.php?id=1&amp;hash=x</link></item>
<item><title>Другое (Other). Серия 2</title><link>http://www.lostfilm.tv/download.php?id=2</link></item>
<item><title>Doctor Who. Трейлер</title><link>http://www.lostfilm.tv/download.php?id=3</link></item>
</channel></rss>"#;

#[test]
fn feed_picks_wanted_releases() {
    let scan = feed_entries(&cp1251(FEED), &s(&["Doctor Who"]), &s(&["Трейлер"]));
    assert!(!scan.malformed);
    assert_eq!(scan.entries.len(), 1);
    assert_eq!(scan.entries[0].title, "Доктор Кто (Doctor Who). Серия 1");
    assert_eq!(
        scan.entries[0].details_url,
        "http://www.lostfilm.tv/details.php?id=1&hash=x"
    );
}

#[test]
fn feed_with_no_shows_finds_nothing() {
    let scan = feed_entries(&cp1251(FEED), &[], &[]);
    assert!(!scan.malformed);
    assert!(scan.entries.is_empty());
}

#[test]
fn feed_channel_title_is_not_a_release() {
    let scan = feed_entries(&cp1251(FEED), &s(&["LostFilm"]), &[]);
    assert!(scan.entries.is_empty());
}

#[test]
fn malformed_feed_keeps_what_came_before() {
    let broken = r#"<rss><channel><item><title>Show A</title><link>http://h/download.php?id=9</link></item><item></channel>"#;
    let scan = feed_entries(broken.as_bytes(), &s(&["Show"]), &[]);
    assert!(scan.malformed);
    assert_eq!(scan.entries.len(), 1);
    assert_eq!(scan.entries[0].details_url, "http://h/details.php?id=9");
}

fn start(n: &str) -> XmlItem {
    XmlItem::Start(n.to_string())
}
fn end(n: &str) -> XmlItem {
    XmlItem::End(n.to_string())
}
fn text(t: &str) -> XmlItem {
    XmlItem::Text(t.to_string())
}

#[test]
fn scanner_keeps_last_wanted_title_for_a_titleless_item() {
    let items = vec![
        start("channel"),
        start("item"),
        start("title"),
        text("Show X"),
        end("title"),
        end("item"),
        start("item"),
        start("link"),
        text("http://h/download.php?id=5"),
        end("link"),
        end("item"),
        end("channel"),
    ];
    let scan = scan_feed(&items, &s(&["Show"]), &[]);
    assert!(!scan.malformed);
    assert_eq!(scan.entries.len(), 1);
    assert_eq!(scan.entries[0].title, "Show X");
    assert_eq!(scan.entries[0].details_url, "http://h/details.php?id=5");
}

#[test]
fn scanner_stops_at_malformed_event() {
    let items = vec![
        start("channel"),
        start("item"),
        start("title"),
        text("Show X"),
        end("title"),
        XmlItem::Malformed,
        start("link"),
        text("http://h/download.php?id=5"),
    ];
    let scan = scan_feed(&items, &s(&["Show"]), &[]);
    assert!(scan.malformed);
    assert!(scan.entries.is_empty());
}

#[test]
fn scanner_ignores_links_outside_items() {
    let items = vec![start("channel"), start("link"), text("http://h/download.php?id=1"), end("link")];
    let scan = scan_feed(&items, &s(&[""]), &[]);
    assert!(scan.entries.is_empty());
}

#[test]
fn wanted_titles() {
    assert!(is_wanted("Doctor Who 1", &s(&["Who"]), &[]));
    assert!(!is_wanted("Doctor Who 1", &s(&["Who"]), &s(&["1"])));
    assert!(!is_wanted("Doctor Who 1", &[], &[]));
    assert_eq!(details_url("a/download.php?b/download.php?"), "a/details.php?b/details.php?");
}

fn titles(scan: &script_utils::feed::FeedScan) -> Vec<String> {
    scan.entries.iter().map(|e| e.title.clone()).collect()
}

#[test]
fn more_patterns_example() {
    let bytes = cp1251(FEED);
    let base = feed_entries(&bytes, &s(&["Doctor Who"]), &[]);
    let fewer = feed_entries(&bytes, &s(&["Doctor Who"]), &s(&["Трейлер"]));
    let more = feed_entries(&bytes, &s(&["Doctor Who", "Other"]), &[]);
    assert_eq!(titles(&base).len(), 2);
    assert_eq!(titles(&fewer), vec![titles(&base)[0].clone()]);
    assert_eq!(titles(&more).len(), 3);
    assert_eq!(titles(&more)[0], titles(&base)[0]);
    assert_eq!(titles(&more)[2], titles(&base)[1]);
}
