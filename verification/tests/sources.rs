use monsoon::sources::{
    classify, enumerate_interfaces, expand_glob, expand_tilde, expand_tilde_with, is_url,
    listed_interfaces, listen_ips, local_kind, lookup_user_home, normalise_path, readable_entries, resolve,
    resolve_kind, resolve_listen_ips, Resolution, Source, SourceKind,
};

#[test]
fn empty_and_whitespace_classify_as_none() {
    assert_eq!(classify("", None), None);
    assert_eq!(classify("   ", None), None);
}

#[test]
fn magnet_uris_classify_as_magnet() {
    assert_eq!(classify("magnet:?xt=urn:btih:abcdef", None), Some(SourceKind::Magnet));
}

#[test]
fn each_url_scheme_classifies_as_url_case_insensitively() {
    for input in [
        "http://example.com/a.torrent",
        "https://example.com/a.torrent",
        "ftp://example.com/a.torrent",
        "sftp://example.com/a.torrent",
        "HTTPS://EXAMPLE.COM/A.TORRENT",
    ] {
        assert_eq!(classify(input, None), Some(SourceKind::Url), "input: {}", input);
    }
}

#[test]
fn tilde_paths_expand_to_home() {
    match classify("~/monsoon-classify-test.torrent", None) {
        Some(SourceKind::LocalPath(path)) => {
            assert!(!path.starts_with('~'), "tilde not expanded: {}", path);
        }
        other => panic!("expected LocalPath, got {:?}", other),
    }
}

#[test]
fn windows_drive_paths_classify_as_local_path_with_folded_drive_letter() {
    match classify(r"c:\downloads\a.torrent", None) {
        Some(SourceKind::LocalPath(path)) => {
            assert!(path.starts_with('C'));
        }
        other => panic!("expected LocalPath, got {:?}", other),
    }
}

#[test]
fn nonexistent_path_with_metacharacters_classifies_as_glob() {
    let pattern = "/monsoon-does-not-exist/*.torrent";
    assert_eq!(classify(pattern, None), Some(SourceKind::LocalGlob(pattern.to_string())));
}

#[test]
fn nonexistent_plain_path_stays_local_path() {
    let path = "/monsoon-does-not-exist/a.torrent";
    assert_eq!(classify(path, None), Some(SourceKind::LocalPath(path.to_string())));
}

#[test]
fn expand_glob_bad_pattern_is_a_clear_error() {
    // unclosed character class is a pattern error, not a silent empty
    let error = expand_glob("/tmp/[").unwrap_err();
    assert!(error.starts_with("bad glob pattern: "), "{}", error);
}

#[test]
fn globs_walk_the_disk_in_order() {
    assert_eq!(expand_glob("/monsoon-does-not-exist/*.torrent"), Ok(Vec::new()));
    let found = expand_glob("/*").unwrap();
    let mut sorted = found.clone();
    sorted.sort();
    assert_eq!(found, sorted);
    assert!(found.iter().all(|path| path.starts_with('/')));
    assert!(!found.is_empty());
}

#[test]
fn an_existing_path_beats_its_reading_as_a_pattern() {
    assert_eq!(
        local_kind("/x/[Group] Show.torrent".to_string(), true),
        SourceKind::LocalPath("/x/[Group] Show.torrent".to_string())
    );
    assert_eq!(
        local_kind("/x/[Group] Show.torrent".to_string(), false),
        SourceKind::LocalGlob("/x/[Group] Show.torrent".to_string())
    );
    // the root of the file system is there
    assert_eq!(classify("/", None), Some(SourceKind::LocalPath("/".to_string())));
}

const PASSWD: &str = "root:x:0:0:root:/root:/bin/sh\nann:x:1000:1000::/home/ann:/bin/sh\nbroken\n";

#[test]
fn homes_are_looked_up_by_name() {
    assert_eq!(lookup_user_home(PASSWD, "ann"), Some("/home/ann".to_string()));
    assert_eq!(lookup_user_home(PASSWD, "bob"), None);
    assert_eq!(lookup_user_home(PASSWD, "broken"), None);
}

#[test]
fn tildes_expand_to_the_named_home() {
    let home = Some("/home/me");
    assert_eq!(expand_tilde_with("~/a", home, None), Some("/home/me/a".to_string()));
    assert_eq!(expand_tilde_with("~", home, None), Some("/home/me/".to_string()));
    assert_eq!(expand_tilde_with("~ann/a", home, Some(PASSWD)), Some("/home/ann/a".to_string()));
    assert_eq!(expand_tilde_with("~ann//a", home, Some(PASSWD)), Some("/home/ann/a".to_string()));
    assert_eq!(expand_tilde_with("~ann", home, Some(PASSWD)), Some("/home/ann/".to_string()));
    assert_eq!(expand_tilde_with("~ann/a", home, None), Some("~ann/a".to_string()));
    assert_eq!(expand_tilde_with("~bob/a", home, Some(PASSWD)), Some("~bob/a".to_string()));
    assert_eq!(expand_tilde_with("~/a", None, None), None);
    assert_eq!(expand_tilde_with("/a", None, None), Some("/a".to_string()));
    assert!(expand_tilde("~/a", None).unwrap().ends_with("/a"));
}

#[test]
fn drive_letters_are_folded() {
    assert_eq!(normalise_path("c:\\x"), "C:\\x");
    assert_eq!(normalise_path("/c:/x"), "/c:/x");
}

#[test]
fn addresses_are_told_from_paths() {
    assert!(is_url("FTP://host/x"));
    assert!(!is_url("magnet:?xt=1"));
    assert!(!is_url("/http://x"));
}

#[test]
fn sources_resolve_by_kind() {
    assert_eq!(
        resolve("magnet:?xt=1", None),
        Resolution::Ready(Source::Magnet("magnet:?xt=1".to_string()))
    );
    assert_eq!(
        resolve("https://host/x.torrent", None),
        Resolution::Fetch("https://host/x.torrent".to_string())
    );
    assert!(matches!(resolve("", None), Resolution::Refused(_)));
    assert!(matches!(resolve("/monsoon-does-not-exist/a", None), Resolution::Refused(_)));
    assert!(matches!(resolve("/monsoon-does-not-exist/*", None), Resolution::Refused(_)));
    assert_eq!(resolve("/", None), Resolution::Ready(Source::File("/".to_string())));
    assert_eq!(
        resolve_kind(Some(SourceKind::LocalPath("/a".to_string())), "/a", true),
        Resolution::Ready(Source::File("/a".to_string()))
    );
}

#[test]
fn unreadable_entries_are_left_out() {
    let walk = vec![Some("a".to_string()), None, Some("b".to_string())];
    assert_eq!(readable_entries(walk), vec!["a".to_string(), "b".to_string()]);
}

fn names(list: &[&str]) -> Vec<String> {
    list.iter().map(|s| s.to_string()).collect()
}

#[test]
fn interfaces_stand_for_their_addresses() {
    let interfaces = vec![
        ("eth0".to_string(), "10.0.0.2".to_string()),
        ("eth0".to_string(), "fe80::1".to_string()),
        ("lo".to_string(), "127.0.0.1".to_string()),
    ];
    let ips = listen_ips(&names(&["eth0", "192.168.1.9"]), &[false, true], &interfaces);
    assert!(ips.contains(&"10.0.0.2".to_string()));
    assert!(ips.contains(&"fe80::1".to_string()));
    assert!(ips.contains(&"192.168.1.9".to_string()));
    assert!(!ips.contains(&"127.0.0.1".to_string()));
}

#[test]
fn interfaces_that_cannot_be_listed_are_none() {
    assert!(listed_interfaces(None).is_empty());
    let one = vec![("lo".to_string(), "127.0.0.1".to_string())];
    assert_eq!(listed_interfaces(Some(one.clone())), one);
}

#[test]
fn this_machine_has_what_it_lists() {
    let interfaces = enumerate_interfaces();
    for (name, address) in &interfaces {
        assert!(!name.is_empty());
        assert!(address.parse::<core::net::IpAddr>().is_ok(), "{}", address);
    }
    assert_eq!(
        resolve_listen_ips(&names(&["192.168.1.9"]), &[true]),
        vec!["192.168.1.9".to_string()]
    );
}
