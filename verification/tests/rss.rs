use monsoon::rss::{
    attr_value, choose_items, local_name, looks_like_torrent, parse_feed, poll_feed,
    to_ascii_lower, FeedItem, FeedReader, RssFeed, RssSeen, XmlEvent,
};

const RSS: &str = r#"<?xml version="1.0"?>
<rss><channel><title>Feed</title>
<item><title>One &amp; only</title><link>http://host/one.torrent</link><guid>g1</guid></item>
<item><title><![CDATA[Two]]></title><enclosure url="http://host/two.torrent" type="x"/><guid>g2</guid></item>
<item><title>Three</title><link>http://host/page</link></item>
</channel></rss>"#;

const ATOM: &str = r#"<feed xmlns="http://www.w3.org/2005/Atom">
<entry><title>Four</title><link href="magnet:?xt=4"/><id>i4</id></entry>
</feed>"#;

fn item(title: &str, uri: &str, guid: &str) -> FeedItem {
    FeedItem {
        title: title.to_string(),
        uri: Some(uri.to_string()),
        guid: Some(guid.to_string()),
    }
}

#[test]
fn rss_items_are_read() {
    let items = parse_feed(RSS);
    assert_eq!(items.len(), 3);
    assert_eq!(items[0], item("One & only", "http://host/one.torrent", "g1"));
    assert_eq!(items[1].title, "Two");
    assert_eq!(items[1].uri, Some("http://host/two.torrent".to_string()));
}

#[test]
fn atom_entries_are_read() {
    let items = parse_feed(ATOM);
    assert_eq!(items, vec![item("Four", "magnet:?xt=4", "i4")]);
}

#[test]
fn broken_documents_give_what_came_before() {
    let items = parse_feed("<rss><item><title>A</title><link>magnet:a</link></item><item></rss>");
    assert_eq!(items.len(), 1);
    assert_eq!(items[0].title, "A");
    assert!(parse_feed("").is_empty());
}

#[test]
fn torrents_are_told_by_their_address() {
    assert!(looks_like_torrent("magnet:?xt=1"));
    assert!(looks_like_torrent("http://host/x.torrent"));
    assert!(looks_like_torrent("http://host/x.torrent?key=1"));
    assert!(looks_like_torrent("https://host/f.torrent#top?x=1"));
    assert!(looks_like_torrent("https://host/f.torrent?x=1#top"));
    assert!(!looks_like_torrent("https://host/page#f.torrent"));
    assert!(!looks_like_torrent("http://host/x.html"));
}

#[test]
fn filters_choose_by_title_and_skip_what_was_seen() {
    let items =
        vec![item("Show S01", "magnet:1", "g1"), item("show s02", "magnet:2", "g2"), item("Film", "magnet:3", "g3")];
    let mut seen = RssSeen::new();
    let chosen = choose_items(&items, "(?i)^show", &seen).unwrap();
    assert_eq!(
        chosen,
        vec![
            ("g1".to_string(), "magnet:1".to_string()),
            ("g2".to_string(), "magnet:2".to_string())
        ]
    );
    assert_eq!(choose_items(&items, "^show", &seen).unwrap().len(), 1);
    seen.insert("g1".to_string());
    let chosen = choose_items(&items, "(?i)^show", &seen).unwrap();
    assert_eq!(chosen.len(), 1);
    let all = choose_items(&items, "", &seen).unwrap();
    assert_eq!(all.len(), 2);
}

#[test]
fn a_bad_filter_is_reported() {
    let seen = RssSeen::new();
    let error = choose_items(&Vec::new(), "(", &seen).unwrap_err();
    assert_eq!(error, "compile filter regex: (");
}

#[test]
fn feeds_are_polled_from_what_was_fetched() {
    let feed = RssFeed {
        url: "http://host/feed".to_string(),
        filter: String::new(),
        category: None,
        save_path: None,
        poll_interval_minutes: 30,
        start_paused: false,
    };
    let seen = RssSeen::new();
    let found = poll_feed(&feed, &seen, Some(RSS)).unwrap();
    assert_eq!(found.len(), 2);
    assert_eq!(
        poll_feed(&feed, &seen, None),
        Err("fetch feed http://host/feed".to_string())
    );
}

#[test]
fn names_and_attributes_are_read_from_bytes() {
    assert_eq!(local_name(b"atom:Link"), "link");
    assert_eq!(local_name(b"\xff"), "");
    let attributes = vec![None, Some((b"href".to_vec(), b"a\xffb".to_vec()))];
    assert_eq!(attr_value(&attributes, "href"), None);
    let attributes = vec![None, Some((b"href".to_vec(), b"a b".to_vec()))];
    assert_eq!(attr_value(&attributes, "href"), Some("a b".to_string()));
    assert_eq!(attr_value(&attributes, "url"), None);
    assert_eq!(to_ascii_lower("AB\u{c9}"), "ab\u{c9}");
}

#[test]
fn character_data_need_not_be_utf8() {
    let start = |name: &[u8]| XmlEvent::Start((name.to_vec(), Vec::new()));
    let end = |name: &[u8]| XmlEvent::End(name.to_vec());
    let reader = FeedReader::new()
        .step(&start(b"item"))
        .step(&start(b"title"))
        .step(&XmlEvent::CData(b"a\xffb".to_vec()))
        .step(&end(b"title"))
        .step(&start(b"link"))
        .step(&XmlEvent::Text(Some("magnet:x".to_string())))
        .step(&end(b"link"))
        .step(&end(b"item"));
    assert_eq!(reader.items.len(), 1);
    assert_eq!(reader.items[0].title, "a\u{fffd}b");
    assert!(reader.step(&XmlEvent::Malformed).done);
}
