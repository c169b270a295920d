use monsoon::binary64::{Real32, Real64};
use monsoon::cli::{
    command_to_request, list_interfaces, resolve_token, sort_pairs, CategoryAction, Command,
    FeedAction,
};
use monsoon::ipc::{
    CategoryInfo, ContentLayout, FileInfo, Request, Response, StatsInfo, TorrentDetail,
    TorrentInfo, TrackerInfo,
};
use monsoon::listing::{report_response, Shares};
use monsoon::names::NameSet;

#[test]
fn commands_stand_for_requests() {
    assert_eq!(command_to_request(Command::List), Request::List);
    assert_eq!(
        command_to_request(Command::Add {
            uri: "magnet:x".to_string(),
            save_path: None,
            category: Some("tv".to_string())
        }),
        Request::Add {
            uri: "magnet:x".to_string(),
            save_path: None,
            category: Some("tv".to_string()),
            start_paused: false,
            content_layout: ContentLayout::Default
        }
    );
    for word in ["on", "true", "1", "yes"] {
        assert_eq!(
            command_to_request(Command::Sequential { index: 3, enabled: word.to_string() }),
            Request::SetSequential { index: 3, enabled: true }
        );
    }
    assert_eq!(
        command_to_request(Command::Sequential { index: 3, enabled: "off".to_string() }),
        Request::SetSequential { index: 3, enabled: false }
    );
    assert_eq!(
        command_to_request(Command::Limit { index: 1, download: Some(5), upload: None }),
        Request::SetTorrentRateLimit { index: 1, download: 5, upload: -1 }
    );
    assert_eq!(
        command_to_request(Command::Category {
            action: CategoryAction::Remove { name: "tv".to_string() }
        }),
        Request::RemoveCategory { name: "tv".to_string() }
    );
    assert_eq!(
        command_to_request(Command::Feed { action: FeedAction::Poll }),
        Request::PollFeeds
    );
    assert_eq!(command_to_request(Command::Stop), Request::Shutdown);
}

#[test]
fn tags_become_a_set() {
    let tags = vec!["b".to_string(), "a".to_string(), "b".to_string()];
    let mut set = NameSet::new();
    set.insert("a");
    set.insert("b");
    assert_eq!(
        command_to_request(Command::Tags { index: 0, tags }),
        Request::SetTags { index: 0, tags: set }
    );
}

#[test]
fn tokens_are_looked_for_in_order() {
    let some = |s: &str| Some(s.to_string());
    assert_eq!(resolve_token(some("a"), some("b"), some("c"), "/t"), Ok("a".to_string()));
    assert_eq!(resolve_token(None, some("b"), some("c"), "/t"), Ok("b".to_string()));
    assert_eq!(resolve_token(None, some(""), some(" c\n"), "/t"), Ok("c".to_string()));
    assert_eq!(
        resolve_token(None, None, None, "/t"),
        Err("no token: pass --token, set MONSOON_TOKEN, or write /t".to_string())
    );
}

#[test]
fn interfaces_are_listed_in_order() {
    let pairs = vec![
        ("lo".to_string(), "127.0.0.1".to_string()),
        ("eth0".to_string(), "fe80::1".to_string()),
        ("eth0".to_string(), "10.0.0.2".to_string()),
    ];
    let mut expected = pairs.clone();
    expected.sort();
    assert_eq!(sort_pairs(pairs.clone()), expected);
    let lines = list_interfaces(pairs);
    assert!(lines.iter().any(|line| line.contains("eth0") && line.contains("10.0.0.2")));
}

fn info() -> TorrentInfo {
    TorrentInfo {
        index: 0,
        info_hash: "abc".to_string(),
        name: "linux.iso".to_string(),
        state: "downloading".to_string(),
        progress: Real64 { bits: 0.5f64.to_bits() },
        download_rate: 1536,
        upload_rate: 0,
        connected_peers: 1,
        total_peers: 2,
        connected_seeds: 3,
        total_seeds: 4,
        total_wanted: 100,
        total_done: 50,
        total_download: 50,
        total_upload: 0,
        num_pieces: 10,
        num_completed_pieces: 5,
        added_time: 86400,
        completed_time: 0,
        save_path: "/dl".to_string(),
        is_paused: false,
        is_finished: false,
        is_seeding: false,
        has_metadata: true,
        error: String::new(),
        tags: NameSet::new(),
        category: None,
        download_limit: -1,
        upload_limit: -1,
    }
}

fn no_shares() -> Shares {
    Shares { torrents: Vec::new(), bar: String::new(), files: Vec::new(), peers: Vec::new() }
}

#[test]
fn torrents_are_printed_in_columns() {
    let report = report_response(
        &Response::TorrentList(vec![info()]),
        &Shares { torrents: vec!["50.0".to_string()], ..no_shares() },
    );
    assert!(!report.error);
    assert!(report.lines.iter().any(|line| line.contains("linux.iso") && line.contains("50.0")));
    let report = report_response(&Response::TorrentList(Vec::new()), &no_shares());
    assert_eq!(report.lines.len(), 1);
}

#[test]
fn details_are_printed_with_files_and_trackers() {
    let detail = TorrentDetail {
        info: info(),
        peers: Vec::new(),
        files: vec![FileInfo {
            index: 0,
            path: "linux.iso".to_string(),
            size: 100,
            progress: Real32 { bits: 0.5f32.to_bits() },
            priority: 4,
        }],
        trackers: vec![TrackerInfo {
            url: "udp://t".to_string(),
            tier: 0,
            verified: true,
            updating: false,
            fails: 2,
            message: "timed out".to_string(),
        }],
    };
    let report = report_response(
        &Response::TorrentDetail(Box::new(detail)),
        &Shares {
            bar: "BAR".to_string(),
            files: vec!["50.0".to_string()],
            ..no_shares()
        },
    );
    let text = report.lines.join("\n");
    assert!(text.contains("BAR"));
    assert!(text.contains("1970-01-02 00:00:00"));
    assert!(text.contains("udp://t"));
}

#[test]
fn failures_go_to_the_error_stream() {
    let report = report_response(&Response::Failed("no".to_string()), &no_shares());
    assert!(report.error);
    assert_eq!(report.lines, vec!["error: no".to_string()]);
    let report = report_response(&Response::Magnet(String::new()), &no_shares());
    assert!(report.error);
    let report = report_response(&Response::Magnet("magnet:x".to_string()), &no_shares());
    assert_eq!(report.lines, vec!["magnet:x".to_string()]);
    let report = report_response(&Response::Done, &no_shares());
    assert!(report.lines.is_empty());
}

#[test]
fn renames_are_reported() {
    let report = report_response(
        &Response::RenameResult { renamed: Vec::new(), rejected: vec![(3, "why".to_string())] },
        &no_shares(),
    );
    assert!(report.error);
    assert_eq!(report.lines.last(), Some(&"  file 3: why".to_string()));
    let report = report_response(
        &Response::RenameResult { renamed: Vec::new(), rejected: Vec::new() },
        &no_shares(),
    );
    assert_eq!(report.lines, vec!["nothing to rename".to_string()]);
}

#[test]
fn totals_and_categories_are_printed() {
    let stats = StatsInfo {
        num_torrents: 1,
        active_torrents: 2,
        paused_torrents: 3,
        download_rate: 0,
        upload_rate: 0,
        total_download: 1536,
        total_upload: 0,
        total_dht_nodes: 9,
        num_peers: 8,
    };
    let text = report_response(&Response::Stats(stats), &no_shares()).lines.join("\n");
    assert!(text.contains("1.5 kiB"), "{}", text);
    let categories = vec![CategoryInfo {
        name: "tv".to_string(),
        save_path: "/tv".to_string(),
        add_tags: vec!["x".to_string()],
        torrent_count: 4,
    }];
    let text = report_response(&Response::Categories(categories), &no_shares()).lines.join("\n");
    assert!(text.contains("tv") && text.contains("/tv"), "{}", text);
}
