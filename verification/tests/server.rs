use monsoon::background::{
    alert_action, record_source, watch_file_wanted, AlertAction, LayoutFacts, LogLevel,
};
use monsoon::binary64::{Real32, Real64};
use monsoon::bridge::{AlertInfo, SessionStats, TorrentFile, TorrentStatus, TorrentTracker};
use monsoon::categories::{Categories, Category, TagRule, TagRules};
use monsoon::config::Config;
use monsoon::ipc::{ContentLayout, Request, Response};
use monsoon::names::{NameMap, NameSet};
use monsoon::requests::AddedFacts;
use monsoon::rss::{RssFeed, RssFeeds, RssSeen};
use monsoon::server::{
    Answer, App, Effect, Facts, Handling, SaveFile, TargetFacts, TorrentFacts,
};
use monsoon::sources::Source;

fn status(name: &str) -> TorrentStatus {
    TorrentStatus {
        name: name.to_string(),
        info_hash: format!("hash-{}", name),
        state: "downloading".to_string(),
        save_path: "/dl".to_string(),
        progress: Real64 { bits: 0.5f64.to_bits() },
        total_download: 10,
        total_upload: 20,
        total_done: 5,
        total_wanted: 100,
        download_rate: 7,
        upload_rate: 8,
        total_peers: 3,
        connected_peers: 2,
        total_seeds: 5,
        connected_seeds: 4,
        num_pieces: 9,
        num_completed_pieces: 1,
        error: String::new(),
        is_paused: false,
        is_finished: false,
        is_seeding: false,
        has_metadata: true,
        added_time: 1,
        completed_time: 0,
        list_peers: 6,
        list_seeds: 7,
        ratio: Real64 { bits: 0f64.to_bits() },
        seeding_time: 0,
    }
}

fn facts_of(name: &str) -> TorrentFacts {
    TorrentFacts {
        status: status(name),
        download_limit: -1,
        upload_limit: -1,
        trackers: vec!["udp://tracker.example.org".to_string()],
    }
}

fn facts(names: &[&str]) -> Facts {
    Facts {
        torrents: names.iter().map(|name| facts_of(name)).collect(),
        target: TargetFacts {
            peers: Vec::new(),
            files: vec![
                TorrentFile { path: "Show/a".to_string(), size: 10, offset: 0 },
                TorrentFile { path: "Show/b".to_string(), size: 20, offset: 10 },
            ],
            file_progress: vec![Real32 { bits: 1f32.to_bits() }],
            file_priorities: vec![4, 0],
            trackers: vec![TorrentTracker {
                url: "udp://t".to_string(),
                tier: 0,
                verified: true,
                updating: false,
                fails: 0,
                message: String::new(),
            }],
            magnet_uri: "magnet:?xt=1".to_string(),
        },
        stats: SessionStats {
            total_download: 1,
            total_upload: 2,
            download_rate: 3,
            upload_rate: 4,
            total_dht_nodes: 5,
            num_peers: 6,
        },
        config_text: "listen_port = 1\n".to_string(),
        rules: None,
        ratio: Ok(Real64 { bits: 1f64.to_bits() }),
    }
}

fn empty_app() -> App {
    App::new(
        Config::default(),
        Categories { entries: NameMap::new() },
        TagRules { rules: Vec::new() },
        RssFeeds { feeds: Vec::new() },
        RssSeen::new(),
    )
}

/// Adds torrents as clients do.
fn app_with(names: &[&str]) -> App {
    let mut app = empty_app();
    for name in names {
        let order = match ask(&mut app, add_request(name), &[]) {
            Handling::Add(order) => order,
            other => panic!("expected an order, got {:?}", other),
        };
        let answer = app.finish_add(
            order,
            Source::Magnet(format!("magnet:{}", name)),
            Ok(AddedFacts {
                info_hash: format!("hash-{}", name),
                name: name.to_string(),
                total_wanted: 100,
                trackers: Vec::new(),
                file_priorities: Vec::new(),
            }),
        );
        assert_eq!(answer.response, Response::Added { id: format!("hash-{}", name) });
    }
    app
}

fn add_request(name: &str) -> Request {
    Request::Add {
        uri: format!("magnet:{}", name),
        save_path: None,
        category: None,
        start_paused: false,
        content_layout: ContentLayout::Default,
    }
}

fn ask(app: &mut App, request: Request, names: &[&str]) -> Handling {
    app.handle_request(request, facts(names))
}

fn reply(app: &mut App, request: Request, names: &[&str]) -> Answer {
    match ask(app, request, names) {
        Handling::Reply(answer) => answer,
        other => panic!("expected an answer, got {:?}", other),
    }
}

#[test]
fn torrents_are_listed_with_their_names() {
    let mut app = app_with(&["a", "b"]);
    let answer = reply(
        &mut app,
        Request::RenameTorrent { index: 1, new_name: "mine".to_string() },
        &["a", "b"],
    );
    assert_eq!(answer.response, Response::Done);
    match reply(&mut app, Request::List, &["a", "b"]).response {
        Response::TorrentList(list) => {
            assert_eq!(list.len(), 2);
            assert_eq!(list[0].name, "a");
            assert_eq!(list[1].name, "mine");
            assert_eq!(list[1].index, 1);
            assert_eq!(list[0].total_wanted, 100);
        }
        other => panic!("unexpected {:?}", other),
    }
    // an empty name brings the old one back
    reply(&mut app, Request::RenameTorrent { index: 1, new_name: String::new() }, &["a", "b"]);
    match reply(&mut app, Request::List, &["a", "b"]).response {
        Response::TorrentList(list) => assert_eq!(list[1].name, "b"),
        other => panic!("unexpected {:?}", other),
    }
}

#[test]
fn detail_joins_files_with_their_progress_and_priority() {
    let mut app = app_with(&["a"]);
    match reply(&mut app, Request::Info { index: 0 }, &["a"]).response {
        Response::TorrentDetail(detail) => {
            assert_eq!(detail.files.len(), 2);
            assert_eq!(detail.files[0].progress.bits, 1f32.to_bits());
            assert_eq!(detail.files[0].priority, 4);
            // what is not reported counts as nothing
            assert_eq!(detail.files[1].progress.bits, 0f32.to_bits());
            assert_eq!(detail.files[1].priority, 0);
            assert_eq!(detail.trackers[0].url, "udp://t");
        }
        other => panic!("unexpected {:?}", other),
    }
}

#[test]
fn a_position_without_torrent_is_refused() {
    let mut app = app_with(&["a"]);
    for request in [
        Request::Info { index: 1 },
        Request::Remove { index: 1, delete_files: true },
        Request::Pause { index: 1 },
        Request::Resume { index: 1 },
        Request::Recheck { index: 1 },
        Request::Reannounce { index: 1 },
        Request::Magnet { index: 1 },
        Request::SetSequential { index: 1, enabled: true },
        Request::SetTorrentRateLimit { index: 1, download: 0, upload: 0 },
        Request::AddTracker { index: 1, url: "udp://t".to_string(), tier: 0 },
        Request::RemoveTracker { index: 1, url: "udp://t".to_string() },
    ] {
        let before = app.clone();
        let answer = reply(&mut app, request, &["a"]);
        assert!(matches!(answer.response, Response::Failed(_)), "{:?}", answer);
        assert!(answer.effects.is_empty());
        assert_eq!(app, before);
    }
}

#[test]
fn commands_become_effects() {
    let mut app = app_with(&["a"]);
    assert_eq!(
        reply(&mut app, Request::Pause { index: 0 }, &["a"]).effects,
        vec![Effect::Pause { index: 0 }, Effect::SaveResume { index: 0 }]
    );
    assert_eq!(
        reply(
            &mut app,
            Request::SetTorrentRateLimit { index: 0, download: 5, upload: -1 },
            &["a"]
        )
        .effects,
        vec![
            Effect::SetDownloadLimit { index: 0, limit: 5 },
            Effect::SetUploadLimit { index: 0, limit: -1 }
        ]
    );
    assert_eq!(
        reply(&mut app, Request::Magnet { index: 0 }, &["a"]).response,
        Response::Magnet("magnet:?xt=1".to_string())
    );
}

#[test]
fn removing_a_torrent_forgets_it() {
    let mut app = app_with(&["a", "b"]);
    let answer = reply(&mut app, Request::Remove { index: 0, delete_files: true }, &["a", "b"]);
    assert_eq!(answer.response, Response::Done);
    assert!(answer.effects.contains(&Effect::RemoveTorrent {
        index: 0,
        delete_files: true,
        info_hash: "hash-a".to_string()
    }));
    assert_eq!(app.torrents.len(), 1);
    assert_eq!(app.torrents[0].info_hash, "hash-b");
}

#[test]
fn totals_come_from_the_session() {
    let mut app = app_with(&["a"]);
    match reply(&mut app, Request::Stats, &["a"]).response {
        Response::Stats(stats) => {
            assert_eq!(stats.num_torrents, 1);
            assert_eq!(stats.total_dht_nodes, 5);
            assert_eq!(stats.num_peers, 6);
        }
        other => panic!("unexpected {:?}", other),
    }
    assert_eq!(
        reply(&mut app, Request::GetConfig, &["a"]).response,
        Response::Config("listen_port = 1\n".to_string())
    );
}

#[test]
fn settings_are_changed_and_saved() {
    let mut app = empty_app();
    let answer = reply(
        &mut app,
        Request::SetConfig { key: "max_uploads".to_string(), value: "9".to_string() },
        &[],
    );
    assert_eq!(answer.response, Response::Done);
    assert_eq!(app.config.max_uploads, 9);
    assert!(answer.effects.contains(&Effect::ApplySettings));
    let before = app.clone();
    let answer = reply(
        &mut app,
        Request::SetConfig { key: "no_such".to_string(), value: "9".to_string() },
        &[],
    );
    assert!(matches!(answer.response, Response::Failed(_)));
    assert_eq!(app, before);
}

#[test]
fn a_save_that_fails_is_what_the_client_hears() {
    let mut app = empty_app();
    let answer = reply(&mut app, Request::SaveConfig, &[]);
    assert_eq!(answer.save, Some(SaveFile::Config));
    assert_eq!(answer.clone().respond(Ok(())), Response::Done);
    assert!(matches!(answer.respond(Err("disk full".to_string())), Response::Failed(_)));
}

#[test]
fn explicit_folders_are_remembered() {
    let mut app = empty_app();
    let order = match ask(
        &mut app,
        Request::Add {
            uri: "magnet:a".to_string(),
            save_path: Some("/data/tv".to_string()),
            category: None,
            start_paused: true,
            content_layout: ContentLayout::Never,
        },
        &[],
    ) {
        Handling::Add(order) => order,
        other => panic!("unexpected {:?}", other),
    };
    assert_eq!(order.target, "/data/tv");
    let answer = app.finish_add(
        order,
        Source::Magnet("magnet:a".to_string()),
        Ok(AddedFacts {
            info_hash: "h".to_string(),
            name: "a".to_string(),
            total_wanted: 1,
            trackers: Vec::new(),
            file_priorities: Vec::new(),
        }),
    );
    assert_eq!(answer.response, Response::Added { id: "h".to_string() });
    assert_eq!(app.config.recent_save_paths, vec!["/data/tv".to_string()]);
    assert_eq!(app.torrents[0].pending_layout, Some(ContentLayout::Never));
}

#[test]
fn a_source_that_cannot_be_added_is_reported() {
    let mut app = empty_app();
    let order = match ask(&mut app, add_request("a"), &[]) {
        Handling::Add(order) => order,
        other => panic!("unexpected {:?}", other),
    };
    let answer =
        app.finish_add(order, Source::Magnet("magnet:a".to_string()), Err("bad".to_string()));
    assert!(matches!(answer.response, Response::Failed(_)));
    assert!(app.torrents.is_empty());
}

#[test]
fn categories_give_folders_and_tags() {
    let mut app = empty_app();
    reply(
        &mut app,
        Request::SetCategoryDefinition {
            name: "tv".to_string(),
            save_path: "/tv".to_string(),
            add_tags: vec!["series".to_string()],
        },
        &[],
    );
    let (folder, tags) = app.resolve_add_target(None, Some("tv"));
    assert_eq!(folder, "/tv");
    assert_eq!(tags.items, vec!["series".to_string()]);
    // a path of its own replaces the folder of the category, not its tags
    let (folder, tags) = app.resolve_add_target(Some("/x"), Some("tv"));
    assert_eq!(folder, "/x");
    assert_eq!(tags.items, vec!["series".to_string()]);
    let (folder, _) = app.resolve_add_target(None, Some("none-such"));
    assert_eq!(folder, app.config.default_save_path);
    match reply(&mut app, Request::ListCategories, &[]).response {
        Response::Categories(list) => {
            assert_eq!(list.len(), 1);
            assert_eq!(list[0].name, "tv");
            assert_eq!(list[0].torrent_count, 0);
        }
        other => panic!("unexpected {:?}", other),
    }
    let answer = reply(&mut app, Request::RemoveCategory { name: "tv".to_string() }, &[]);
    assert_eq!(answer.save, Some(SaveFile::Categories));
    assert!(app.categories.get("tv").is_none());
}

#[test]
fn unknown_categories_are_refused() {
    let mut app = app_with(&["a"]);
    let answer =
        reply(&mut app, Request::SetCategory { index: 0, name: Some("x".to_string()) }, &["a"]);
    assert_eq!(answer.response, Response::Failed("unknown category: x".to_string()));
    let answer = reply(&mut app, Request::SetCategory { index: 0, name: None }, &["a"]);
    assert_eq!(answer.response, Response::Done);
}

#[test]
fn retagging_reports_how_many_have_grown() {
    let mut app = app_with(&["a", "b"]);
    let rules = TagRules {
        rules: vec![TagRule {
            name: "r".to_string(),
            size_min: None,
            size_max: None,
            name_contains: Some("a".to_string()),
            tracker_contains: None,
            add_tags: vec!["x".to_string()],
        }],
    };
    let all = vec![facts_of("a"), facts_of("b")];
    assert_eq!(app.retag_all(Some(rules.clone()), &all), 1);
    assert!(app.torrents[0].tags.contains("x"));
    assert!(!app.torrents[1].tags.contains("x"));
    assert_eq!(app.retag_all(Some(rules), &all), 0);
}

#[test]
fn file_priorities_are_checked() {
    let mut app = app_with(&["a"]);
    let answer = reply(
        &mut app,
        Request::SetFilePriority { index: 0, file_index: 1, priority: 7 },
        &["a"],
    );
    assert_eq!(
        answer.effects.first(),
        Some(&Effect::SetPriority { index: 0, file: 1, priority: 7 })
    );
    let answer = reply(
        &mut app,
        Request::SetFilePriority { index: 0, file_index: 2, priority: 7 },
        &["a"],
    );
    assert!(matches!(answer.response, Response::Failed(_)));
}

#[test]
fn files_and_folders_are_renamed_when_nothing_collides() {
    let mut app = app_with(&["a"]);
    let answer = reply(
        &mut app,
        Request::RenameFile { index: 0, file_index: 0, new_name: "Show/b".to_string() },
        &["a"],
    );
    assert!(answer.effects.is_empty(), "{:?}", answer);
    let answer = reply(
        &mut app,
        Request::RenameFolder {
            index: 0,
            old_prefix: "Show".to_string(),
            new_prefix: "New".to_string(),
        },
        &["a"],
    );
    assert!(answer.effects.contains(&Effect::RenameFile {
        index: 0,
        file: 1,
        path: "New/b".to_string()
    }));
    assert_eq!(
        answer.response,
        Response::RenameResult { renamed: vec![0, 1], rejected: Vec::new() }
    );
}

#[test]
fn torrents_move_to_where_there_is_a_folder() {
    let mut app = app_with(&["a"]);
    let order = match ask(
        &mut app,
        Request::Move { index: 0, new_save_path: "/new".to_string() },
        &["a"],
    ) {
        Handling::Move(order) => order,
        other => panic!("unexpected {:?}", other),
    };
    let answer = app.clone().finish_move(order.clone(), Err("denied".to_string()), false);
    assert!(matches!(answer.response, Response::Failed(_)));
    let answer = app.finish_move(order, Ok(()), false);
    assert_eq!(answer.response, Response::Done);
    assert!(answer
        .effects
        .contains(&Effect::MoveStorage { index: 0, path: "/new".to_string() }));
    assert_eq!(app.torrents[0].save_path, "/new");
    assert_eq!(app.config.recent_save_paths, vec!["/new".to_string()]);
}

fn feed(url: &str) -> RssFeed {
    RssFeed {
        url: url.to_string(),
        filter: String::new(),
        category: None,
        save_path: Some("/feeds".to_string()),
        poll_interval_minutes: 30,
        start_paused: true,
    }
}

#[test]
fn feeds_are_due_at_once_and_then_after_their_interval() {
    let mut app = empty_app();
    app.add_feed(feed("http://x"));
    assert!(app.feed_is_due(0, 1000));
    // a poll that fails is not noted, so the feed is tried again
    assert!(app.feed_is_due(0, 1001));
    app.note_poll(0, 1000);
    assert!(!app.feed_is_due(0, 1001));
    assert!(!app.feed_is_due(0, 1000 + 30 * 60 * 1000 - 1));
    assert!(app.feed_is_due(0, 1000 + 30 * 60 * 1000));
    app.note_poll(0, 1000 + 30 * 60 * 1000);
    assert!(!app.feed_is_due(0, 1000 + 30 * 60 * 1000 + 1));
    app.poll_feeds();
    assert!(app.feed_is_due(0, 1000 + 30 * 60 * 1000 + 1));
}

#[test]
fn items_of_feeds_are_ordered_as_the_feed_says() {
    let mut app = empty_app();
    app.add_feed(feed("http://x"));
    let order = app.order_feed_item(0, "magnet:x".to_string());
    assert_eq!(order.target, "/feeds");
    assert!(order.start_paused);
    app.feed_item_added("guid-1".to_string());
    assert!(app.rss_seen.contains("guid-1"));
    match reply(&mut app, Request::ListFeeds, &[]).response {
        Response::Feeds(list) => assert_eq!(list[0].url, "http://x"),
        other => panic!("unexpected {:?}", other),
    }
    let answer = reply(&mut app, Request::RemoveFeed { index: 1 }, &[]);
    assert!(matches!(answer.response, Response::Failed(_)));
    let answer = reply(&mut app, Request::RemoveFeed { index: 0 }, &[]);
    assert_eq!(answer.save, Some(SaveFile::Feeds));
    assert!(app.rss_feeds.feeds.is_empty());
}

#[test]
fn stored_torrents_come_back() {
    let app = app_with(&["a", "b"]);
    let records = app.records();
    assert_eq!(record_source(&records[0]), Some(Source::Magnet("magnet:a".to_string())));
    let mut again = empty_app();
    for record in records {
        let hash = record.info_hash.clone();
        again.restore(record, hash);
    }
    assert_eq!(again.torrents, app.torrents);
}

#[test]
fn completion_fires_once() {
    let mut app = app_with(&["a"]);
    app.config.completion_script = Some("/bin/done".to_string());
    let mut fact = facts_of("a");
    assert!(app.process_completion_hooks(&vec![fact.clone()]).firings.is_empty());
    fact.status.is_finished = true;
    let completion = app.process_completion_hooks(&vec![fact.clone()]);
    assert_eq!(completion.firings.len(), 1);
    assert_eq!(completion.firings[0].hash, "hash-a");
    assert_eq!(completion.script, Some("/bin/done".to_string()));
    assert!(completion.notify);
    assert!(app.process_completion_hooks(&vec![fact]).firings.is_empty());
}

#[test]
fn seed_limits_act_once_on_what_has_reached_them() {
    let mut app = app_with(&["a", "b"]);
    app.config.seed_ratio_limit = Real64 { bits: 2f64.to_bits() };
    app.config.seed_ratio_action = "pause".to_string();
    let mut seeding = facts_of("b");
    seeding.status.is_seeding = true;
    seeding.status.is_finished = true;
    seeding.status.state = "seeding".to_string();
    seeding.status.ratio = Real64 { bits: 2f64.to_bits() };
    let all = vec![facts_of("a"), seeding];
    let effects = app.check_seed_limits(&all);
    assert!(effects.contains(&Effect::Pause { index: 1 }), "{:?}", effects);
    assert!(!effects.contains(&Effect::Pause { index: 0 }));
    assert!(app.check_seed_limits(&all).is_empty());
}

#[test]
fn seed_limits_can_remove() {
    let mut app = app_with(&["a", "b", "c"]);
    app.config.seed_ratio_limit = Real64 { bits: 1f64.to_bits() };
    app.config.seed_ratio_action = "remove".to_string();
    let mut all = vec![facts_of("a"), facts_of("b"), facts_of("c")];
    for i in [0, 1] {
        all[i].status.is_seeding = true;
        all[i].status.is_finished = true;
        all[i].status.ratio = Real64 { bits: 3f64.to_bits() };
    }
    app.check_seed_limits(&all);
    assert_eq!(app.torrents.len(), 1);
    assert_eq!(app.torrents[0].info_hash, "hash-c");
}

#[test]
fn layouts_wait_for_the_files() {
    let mut app = app_with(&["a"]);
    app.torrents[0].pending_layout = Some(ContentLayout::Never);
    let mut waiting = LayoutFacts { status: status("a"), files: Vec::new() };
    waiting.status.has_metadata = false;
    assert!(app.apply_pending_layouts(&vec![waiting]).is_empty());
    assert!(app.torrents[0].pending_layout.is_some());
    let ready = LayoutFacts {
        status: status("a"),
        files: vec!["Show/a".to_string(), "Show/b".to_string()],
    };
    let effects = app.apply_pending_layouts(&vec![ready.clone()]);
    assert!(effects.contains(&Effect::RenameFile { index: 0, file: 0, path: "a".to_string() }));
    assert!(app.torrents[0].pending_layout.is_none());
    assert!(app.apply_pending_layouts(&vec![ready]).is_empty());
}

#[test]
fn resume_data_is_saved_for_what_is_ready() {
    let app = app_with(&["a", "b"]);
    assert_eq!(
        app.save_resume_data(&vec![false, true]),
        vec![Effect::SaveResume { index: 1 }]
    );
}

fn alert(alert_type: &str, category: &str) -> AlertInfo {
    AlertInfo {
        timestamp: 0,
        category: category.to_string(),
        message: String::new(),
        alert_type: alert_type.to_string(),
    }
}

#[test]
fn alerts_are_sorted_by_what_they_tell() {
    assert_eq!(alert_action(&alert("file_renamed_alert", "storage")), AlertAction::Renamed);
    assert_eq!(
        alert_action(&alert("storage_moved_failed_alert", "storage")),
        AlertAction::MoveFailed
    );
    assert_eq!(alert_action(&alert("other", "error")), AlertAction::Log(LogLevel::Error));
}

#[test]
fn watched_files_are_taken_once() {
    assert!(watch_file_wanted("a.torrent"));
    assert!(!watch_file_wanted("a.txt"));
    let mut app = empty_app();
    let order = app.take_watch_file("/watch/a.torrent".to_string());
    assert_eq!(order.map(|o| o.uri), Some("/watch/a.torrent".to_string()));
    assert_eq!(app.take_watch_file("/watch/a.torrent".to_string()), None);
}

#[test]
fn tags_are_replaced_as_a_set() {
    let mut app = app_with(&["a"]);
    let mut tags = NameSet::new();
    tags.insert("x");
    reply(&mut app, Request::SetTags { index: 0, tags: tags.clone() }, &["a"]);
    assert_eq!(app.torrents[0].tags, tags);
    match reply(&mut app, Request::List, &["a"]).response {
        Response::TorrentList(list) => assert_eq!(list[0].tags, tags),
        other => panic!("unexpected {:?}", other),
    }
}

#[test]
fn category_definitions_hold_what_was_given() {
    let mut app = empty_app();
    app.define_category(
        "tv".to_string(),
        Category { save_path: "/tv".to_string(), add_tags: Vec::new() },
    );
    assert_eq!(app.list_categories()[0].save_path, "/tv");
}
