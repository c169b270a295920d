use monsoon::binary64::{Real32, Real64};
use monsoon::config::Config;
use monsoon::ipc::{
    CategoryInfo, ContentLayout, FeedInfo, FileInfo, Request, Response, StatsInfo, TorrentDetail,
    TorrentInfo, TrackerInfo,
};
use monsoon::names::{NameMap, NameSet};
use monsoon::textfield::FolderEntry;
use monsoon::tui::add_form::{AddOptionsForm, AddRun};
use monsoon::tui::app_state::{AppState, Effect, Mode, Polls, Topic};
use monsoon::tui::columns::{configured_columns, Column};
use monsoon::tui::filters::StatusFilter;
use monsoon::tui::keys::{Code, Key};
use monsoon::tui::main_view::{DetailTab, InputPurpose, MainState, Pane, Purpose};
use monsoon::tui::mouse::{handle_mouse, Area, MouseEvent, MouseKind, Screen};
use monsoon::tui::priority::StepBar;
use monsoon::tui::prompt::{clipboard_magnet_or_url, settle_prompt, PromptAction};

fn press(code: Code) -> Key {
    Key { code, control: false, alt: false, shift: false, other: false }
}

fn letter(c: char) -> Key {
    press(Code::Char(c))
}

fn shifted(c: char) -> Key {
    Key { shift: true, ..letter(c) }
}

fn control_c() -> Key {
    Key { control: true, ..letter('c') }
}

fn torrent(name: &str, category: Option<&str>) -> TorrentInfo {
    TorrentInfo {
        index: 0,
        info_hash: format!("hash-{}", name),
        name: name.to_string(),
        state: "downloading".to_string(),
        progress: Real64 { bits: 0 },
        download_rate: 0,
        upload_rate: 0,
        connected_peers: 0,
        total_peers: 0,
        connected_seeds: 0,
        total_seeds: 0,
        total_wanted: 0,
        total_done: 0,
        total_download: 0,
        total_upload: 0,
        num_pieces: 0,
        num_completed_pieces: 0,
        added_time: 0,
        completed_time: 0,
        save_path: "/dl".to_string(),
        is_paused: false,
        is_finished: false,
        is_seeding: false,
        has_metadata: true,
        error: String::new(),
        tags: NameSet::new(),
        category: category.map(|c| c.to_string()),
        download_limit: 0,
        upload_limit: -1,
    }
}

fn file(path: &str) -> FileInfo {
    FileInfo {
        index: 0,
        path: path.to_string(),
        size: 10,
        progress: Real32 { bits: 0 },
        priority: 4,
    }
}

fn detail(name: &str, paths: &[&str]) -> TorrentDetail {
    TorrentDetail {
        info: torrent(name, None),
        peers: Vec::new(),
        files: paths.iter().map(|p| file(p)).collect(),
        trackers: vec![TrackerInfo {
            url: "udp://t".to_string(),
            tier: 0,
            verified: true,
            updating: false,
            fails: 0,
            message: String::new(),
        }],
    }
}

fn state(names: &[&str]) -> AppState {
    let mut main = MainState::new(true, true);
    let list = names.iter().map(|name| torrent(name, None)).collect();
    main.take_list(Ok(Response::TorrentList(list)));
    AppState::new(main, configured_columns(&Vec::new()))
}

fn type_text(app: &mut AppState, text: &str) {
    for c in text.chars() {
        assert_eq!(app.route_key(letter(c)), Effect::Nothing);
    }
}

#[test]
fn control_c_quits_wherever_the_keys_go() {
    let mut app = state(&["a"]);
    assert_eq!(app.route_key(control_c()), Effect::Quit);
    app.route_key(letter('?'));
    assert!(app.show_help);
    assert_eq!(app.route_key(control_c()), Effect::Quit);
    assert_eq!(app.route_key(letter('z')), Effect::Nothing);
    assert!(!app.show_help);
    app.route_key(letter('u'));
    assert_eq!(app.route_key(control_c()), Effect::Quit);
    assert!(matches!(app.mode, Mode::Feeds(_)));
}

#[test]
fn moving_stays_inside_the_list() {
    let mut app = state(&["a", "b", "c"]);
    assert_eq!(app.main.selected_torrent_index(), Some(0));
    app.route_key(press(Code::PageDown));
    assert_eq!(app.main.selected_torrent_index(), Some(2));
    app.route_key(letter('w'));
    assert_eq!(app.main.selected_torrent_index(), Some(1));
    app.main.take_list(Ok(Response::TorrentList(vec![torrent("a", None)])));
    assert_eq!(app.main.selected_torrent_index(), Some(0));
    app.main.take_list(Ok(Response::TorrentList(Vec::new())));
    assert_eq!(app.main.selected_torrent_index(), None);
}

#[test]
fn typing_a_name_narrows_the_list() {
    let mut app = state(&["Alpha", "Beta", "Gamma"]);
    app.route_key(letter('/'));
    type_text(&mut app, "BET");
    assert_eq!(app.main.selected_torrent_index(), Some(1));
    app.route_key(press(Code::Enter));
    assert!(app.active_input.is_none());
    assert_eq!(app.main.filters.name, "BET");
    app.route_key(letter('/'));
    app.route_key(press(Code::Backspace));
    app.route_key(press(Code::Esc));
    assert_eq!(app.main.filters.name, "BE");
}

#[test]
fn pausing_asks_the_daemon() {
    let mut app = state(&["a", "b"]);
    app.route_key(letter('s'));
    let effect = app.route_key(letter('p'));
    assert_eq!(
        effect,
        Effect::Send {
            request: Request::Pause { index: 1 },
            topic: Topic::Main(Purpose::Pause)
        }
    );
    app.main.list_due = false;
    app.take_answer(&Topic::Main(Purpose::Pause), &Ok(Response::Done));
    assert!(app.main.list_due);
    app.take_answer(&Topic::Main(Purpose::Pause), &Err("gone".to_string()));
    assert_eq!(app.main.error, Some("pause/resume: gone".to_string()));
}

#[test]
fn deleting_asks_first() {
    let mut app = state(&["a"]);
    assert_eq!(app.route_key(letter('x')), Effect::Nothing);
    app.route_key(press(Code::Tab));
    assert_eq!(
        app.route_key(letter('y')),
        Effect::Send {
            request: Request::Remove { index: 0, delete_files: true },
            topic: Topic::Main(Purpose::Delete)
        }
    );
    assert!(app.confirm_delete.is_none());
    app.route_key(letter('x'));
    assert_eq!(app.route_key(letter('n')), Effect::Nothing);
    assert!(app.confirm_delete.is_none());
}

#[test]
fn prompts_rename_and_stay_when_refused() {
    let mut app = state(&["old"]);
    app.route_key(letter('r'));
    assert_eq!(app.prompt.as_ref().unwrap().title, "rename torrent #0");
    app.route_key(press(Code::Backspace));
    let effect = app.route_key(press(Code::Enter));
    assert_eq!(
        effect,
        Effect::Send {
            request: Request::RenameTorrent { index: 0, new_name: "ol".to_string() },
            topic: Topic::Prompt
        }
    );
    app.take_answer(&Topic::Prompt, &Ok(Response::Failed("no".to_string())));
    assert!(app.prompt.is_some());
    assert_eq!(app.main.error, Some("no".to_string()));
    app.take_answer(&Topic::Prompt, &Ok(Response::Done));
    assert!(app.prompt.is_none());
    assert!(app.main.list_due && app.main.detail_due);
}

#[test]
fn without_a_torrent_the_status_line_says_so() {
    let mut app = state(&[]);
    assert_eq!(app.route_key(letter('r')), Effect::Nothing);
    assert_eq!(app.main.error, Some("no torrent selected".to_string()));
    assert!(app.prompt.is_none());
}

#[test]
fn limits_are_read_from_two_lines() {
    let mut app = state(&["a"]);
    app.route_key(shifted('L'));
    let prompt = app.prompt.as_ref().unwrap();
    assert_eq!(prompt.lines, vec!["0".to_string(), "-1".to_string()]);
    app.route_key(letter('7'));
    app.route_key(press(Code::Down));
    app.route_key(letter('x'));
    assert_eq!(
        app.route_key(press(Code::Enter)),
        Effect::Send {
            request: Request::SetTorrentRateLimit { index: 0, download: 7, upload: -1 },
            topic: Topic::Prompt
        }
    );
}

#[test]
fn paths_are_completed_in_the_move_prompt() {
    let mut app = state(&["a"]);
    app.route_key(letter('m'));
    type_text(&mut app, "/se");
    let effect = app.route_key(press(Code::Tab));
    assert_eq!(effect, Effect::CompletePrompt { folder: "/dl/".to_string() });
    app.complete_prompt(&Some(vec![FolderEntry {
        name: "Series".to_string(),
        is_folder: true,
    }]));
    assert_eq!(app.prompt.as_ref().unwrap().lines, vec!["/dl/Series/".to_string()]);
}

#[test]
fn sources_go_through_their_options_and_are_added_in_turn() {
    let mut app = state(&[]);
    assert_eq!(app.route_key(letter('n')), Effect::OpenSources);
    app.open_add_prompt(&Some("  magnet:one \n".to_string()));
    assert_eq!(app.prompt.as_ref().unwrap().lines, vec!["magnet:one".to_string()]);
    app.route_key(Key { shift: true, ..press(Code::Enter) });
    type_text(&mut app, "magnet:two");
    assert_eq!(app.route_key(press(Code::Enter)), Effect::Nothing);
    assert!(app.prompt.is_none());
    assert_eq!(app.add_options.as_ref().unwrap().title(), " add options  (1/2) ");
    // the first is added paused
    app.route_key(press(Code::Enter));
    for _ in 0..5 {
        app.route_key(letter('s'));
    }
    app.route_key(press(Code::Enter));
    for _ in 0..5 {
        app.route_key(letter('s'));
    }
    let mut run = match app.route_key(press(Code::Enter)) {
        Effect::AddSources(run) => run,
        other => panic!("unexpected {:?}", other),
    };
    assert_eq!(
        run.next_request(),
        Some(Request::Add {
            uri: "magnet:one".to_string(),
            save_path: None,
            category: None,
            start_paused: true,
            content_layout: ContentLayout::Default
        })
    );
    run.take_answer(&Ok(Response::Added { id: "h".to_string() }));
    assert_eq!(run.next_request(), Some(Request::List));
    run.take_answer(&Ok(Response::TorrentList(vec![torrent("x", None), torrent("y", None)])));
    run.take_answer(&Ok(Response::Failed("bad magnet".to_string())));
    assert_eq!(run.next_request(), None);
    assert_eq!(run.summary(), "added 1 ok, 1 failed: magnet:two: bad magnet");
    app.finish_adding(run);
    let step = app.priority_step.as_ref().unwrap();
    assert_eq!(step.indices, vec![1]);
    assert_eq!(step.entries, vec!["magnet:one".to_string()]);
}

#[test]
fn adding_tells_how_it_went() {
    let form = AddOptionsForm::new(vec!["a".to_string()]);
    let mut run = AddRun::dispatch_add_options(form.clone());
    run.take_answer(&Ok(Response::Added { id: "h".to_string() }));
    assert_eq!(run.summary(), "added 1 torrent(s)");
    let mut run = AddRun::dispatch_add_options(form);
    run.take_answer(&Err("down".to_string()));
    assert_eq!(run.summary(), "all sources failed: a: down");
}

#[test]
fn options_are_asked_for_in_order() {
    let mut form = AddOptionsForm::new(vec!["a".to_string()]);
    form.options[0].sequential = true;
    form.options[0].first_last = true;
    let mut run = AddRun::dispatch_add_options(form);
    run.take_answer(&Ok(Response::Added { id: "h".to_string() }));
    run.take_answer(&Ok(Response::TorrentList(vec![torrent("x", None)])));
    assert_eq!(run.next_request(), Some(Request::SetSequential { index: 0, enabled: true }));
    run.take_answer(&Ok(Response::Done));
    assert_eq!(
        run.next_request(),
        Some(Request::SetFirstLastPriority { index: 0, enabled: true })
    );
    run.take_answer(&Ok(Response::Done));
    assert_eq!(run.next_request(), None);
    assert!(run.paused_indices.is_empty());
}

#[test]
fn forms_show_their_values() {
    let mut form = AddOptionsForm::new(vec!["a".to_string()]);
    assert_eq!(
        form.field_values(),
        vec![
            "\u{25cf} on".to_string(),
            "\u{25cb} off".to_string(),
            "\u{25cb} off".to_string(),
            "default".to_string(),
            "(default \u{2014} daemon's default_save_path)".to_string(),
            "[ add ]".to_string()
        ]
    );
    for _ in 0..4 {
        form.handle_add_options_key(letter('s'));
    }
    form.handle_add_options_key(press(Code::Enter));
    form.handle_add_options_key(letter('/'));
    assert_eq!(form.field_values()[4], "[ /_ ]");
    form.handle_add_options_key(press(Code::Enter));
    assert_eq!(form.options[0].save_path, "/");
}

#[test]
fn priorities_are_set_file_by_file() {
    let mut app = state(&["a"]);
    let mut run = AddRun::dispatch_add_options(AddOptionsForm::new(vec!["m".to_string()]));
    run.options[0].start = false;
    run.take_answer(&Ok(Response::Added { id: "h".to_string() }));
    run.take_answer(&Ok(Response::TorrentList(vec![torrent("a", None)])));
    app.finish_adding(run);
    {
        let step = app.priority_step.as_mut().unwrap();
        assert_eq!(step.poll_priority_step(), Some(Request::Info { index: 0 }));
        step.take_detail(detail("a", &["Show/a.mkv", "Show/b.mkv"]), vec![0, 0]);
        let (place, entry, onward) = step.heading();
        assert_eq!((place.as_str(), entry.as_str(), onward), ("torrent 1/1", "m", "done  "));
        assert_eq!(step.bar(), StepBar::Hint);
    }
    // the folder row stands for both files
    assert_eq!(
        app.route_key(letter('0')),
        Effect::Send {
            request: Request::SetFilePrioritiesBatch {
                index: 0,
                priorities: vec![(0, 0), (1, 0)]
            },
            topic: Topic::Step
        }
    );
    app.route_key(letter('/'));
    type_text(&mut app, "b");
    assert_eq!(app.priority_step.as_ref().unwrap().files.matches, vec![1]);
    app.route_key(press(Code::Esc));
    app.route_key(letter('r'));
    app.route_key(press(Code::Backspace));
    assert_eq!(
        app.route_key(press(Code::Enter)),
        Effect::Send {
            request: Request::RenameFile {
                index: 0,
                file_index: 1,
                new_name: "b.mk".to_string()
            },
            topic: Topic::Step
        }
    );
    assert_eq!(app.route_key(press(Code::Esc)), Effect::Nothing);
    assert!(app.priority_step.is_none());
}

#[test]
fn the_content_tab_folds_and_filters() {
    let mut app = state(&["a"]);
    app.main.take_detail(detail("a", &["Show/a.mkv", "Show/b.mkv", "x.txt"]), vec![0, 0, 0]);
    app.main.focus = Pane::Detail;
    app.main.files.selection.select(Some(0));
    assert_eq!(app.main.files.row_count(), 4);
    app.route_key(letter('a'));
    assert_eq!(app.main.files.row_count(), 2);
    app.route_key(letter('d'));
    assert_eq!(app.main.files.row_count(), 4);
    app.route_key(letter('/'));
    assert_eq!(app.active_input.as_ref().unwrap().purpose, InputPurpose::ContentFilter);
    type_text(&mut app, "s");
    app.route_key(press(Code::Tab));
    assert_eq!(app.main.files.filter, "Show/");
    assert_eq!(app.active_input.as_ref().unwrap().buffer, "Show/");
    assert_eq!(app.main.files.matches, vec![0, 1]);
    app.route_key(press(Code::Enter));
    assert_eq!(
        app.route_key(letter('4')),
        Effect::Send {
            request: Request::SetFilePrioritiesBatch { index: 0, priorities: vec![(0, 7)] },
            topic: Topic::Main(Purpose::Priority { priority: 7, count: 1 })
        }
    );
    app.take_answer(
        &Topic::Main(Purpose::Priority { priority: 7, count: 1 }),
        &Ok(Response::Done),
    );
    assert_eq!(app.main.error, Some("priority 7 set on 1 file(s)".to_string()));
}

#[test]
fn trackers_are_added_and_removed() {
    let mut app = state(&["a"]);
    app.main.take_detail(detail("a", &["x"]), vec![0]);
    app.main.focus = Pane::Detail;
    app.route_key(letter(']'));
    assert_eq!(app.main.detail_tab, DetailTab::Trackers);
    app.route_key(letter('d'));
    assert_eq!(app.main.error, Some("no tracker selected".to_string()));
    app.route_key(letter('s'));
    assert_eq!(
        app.route_key(letter('d')),
        Effect::Send {
            request: Request::RemoveTracker { index: 0, url: "udp://t".to_string() },
            topic: Topic::Main(Purpose::RemoveTracker { url: "udp://t".to_string() })
        }
    );
    app.route_key(letter('a'));
    assert_eq!(app.prompt.as_ref().unwrap().action, PromptAction::AddTracker);
    app.route_key(press(Code::Enter));
    assert_eq!(app.main.error, Some("tracker url cannot be empty".to_string()));
}

#[test]
fn panes_are_gone_through_in_order() {
    let mut app = state(&["a"]);
    assert_eq!(app.main.focus, Pane::List);
    app.route_key(press(Code::Tab));
    assert_eq!(app.main.focus, Pane::Detail);
    app.route_key(press(Code::Tab));
    assert_eq!(app.main.focus, Pane::Sidebar);
    app.route_key(letter('q'));
    assert_eq!(app.main.focus, Pane::List);
    assert!(!app.main.show_sidebar);
    app.route_key(letter('e'));
    app.route_key(press(Code::Tab));
    assert_eq!(app.main.focus, Pane::List);
}

#[test]
fn the_sidebar_narrows_the_list() {
    let mut app = state(&["a"]);
    app.main.take_list(Ok(Response::TorrentList(vec![
        torrent("a", None),
        torrent("b", Some("tv")),
    ])));
    app.main.take_categories(&Ok(Response::Categories(vec![
        CategoryInfo {
            name: "tv".to_string(),
            save_path: String::new(),
            add_tags: Vec::new(),
            torrent_count: 1,
        },
        CategoryInfo {
            name: "film".to_string(),
            save_path: String::new(),
            add_tags: Vec::new(),
            torrent_count: 0,
        },
    ])));
    assert_eq!(app.main.sidebar_categories, vec!["film".to_string(), "tv".to_string()]);
    app.main.focus = Pane::Sidebar;
    // the heading, seven states, the heading, all, none, film, tv
    for _ in 0..12 {
        app.route_key(letter('s'));
    }
    app.route_key(press(Code::Enter));
    assert_eq!(app.main.filters.category, Some(Some("tv".to_string())));
    assert_eq!(app.main.selected_torrent_index(), Some(1));
    assert_eq!(app.main.filters.status, StatusFilter::All);
}

#[test]
fn feeds_are_listed_and_removed() {
    let mut app = state(&[]);
    app.route_key(letter('u'));
    let feed = FeedInfo {
        index: 0,
        url: "http://x".to_string(),
        filter: String::new(),
        category: Some("tv".to_string()),
        save_path: None,
        poll_interval_minutes: 30,
        start_paused: true,
    };
    if let Mode::Feeds(page) = &mut app.mode {
        assert_eq!(page.poll_feeds_page(), Request::ListFeeds);
        page.take_feeds(Ok(Response::Feeds(vec![feed])));
        assert_eq!(page.detail_line(), "  category: tv  \u{b7}  start paused");
    }
    assert_eq!(
        app.route_key(letter('x')),
        Effect::Send {
            request: Request::RemoveFeed { index: 0 },
            topic: Topic::FeedRemoval { index: 0 }
        }
    );
    app.take_answer(&Topic::FeedRemoval { index: 0 }, &Ok(Response::Done));
    match &app.mode {
        Mode::Feeds(page) => assert_eq!(page.status, Some("feed 0 removed".to_string())),
        other => panic!("unexpected {:?}", other),
    }
    app.route_key(letter('n'));
    app.route_key(press(Code::Enter));
    assert_eq!(app.main.error, Some("url cannot be empty".to_string()));
    type_text(&mut app, "http://y");
    let effect = app.route_key(press(Code::Enter));
    assert!(matches!(effect, Effect::Send { request: Request::AddFeed { .. }, .. }));
    app.take_answer(&Topic::Prompt, &Ok(Response::Done));
    match &app.mode {
        Mode::Feeds(page) => {
            assert_eq!(page.status, Some("feed added".to_string()));
            assert!(page.poll_now);
        }
        other => panic!("unexpected {:?}", other),
    }
    app.route_key(press(Code::Esc));
    assert!(matches!(app.mode, Mode::Main));
}

#[test]
fn settings_are_changed_through_the_daemon() {
    let mut app = state(&[]);
    assert_eq!(app.route_key(letter(',')), Effect::OpenSettings);
    app.open_settings(Err("refused".to_string()), String::new(), false);
    assert_eq!(app.main.error, Some("settings: refused".to_string()));
    app.open_settings(Ok(Config::default()), "0".to_string(), false);
    let topic = match app.route_key(press(Code::Enter)) {
        Effect::Send { request: Request::SetConfig { key, value }, topic } => {
            assert_eq!(key, "anonymous_mode");
            assert_eq!(value, (!Config::default().anonymous_mode).to_string());
            topic
        }
        other => panic!("unexpected {:?}", other),
    };
    assert!(app.take_answer(&topic, &Ok(Response::Done)));
    match &app.mode {
        Mode::Settings(page) => {
            assert!(page.status.as_ref().unwrap().starts_with("saved anonymous_mode = "));
        }
        other => panic!("unexpected {:?}", other),
    }
    assert!(!app.take_answer(&topic, &Ok(Response::Failed("no".to_string()))));
    app.main.list_due = false;
    app.route_key(press(Code::Esc));
    assert!(matches!(app.mode, Mode::Main));
    // the list may have changed meanwhile
    assert!(app.main.list_due);
}

#[test]
fn polls_are_wanted_where_they_are_seen() {
    let mut app = state(&[]);
    let none = Polls { list: false, detail: false, feeds: false, step: false };
    let all = Polls { list: true, detail: true, feeds: true, step: true };
    assert!(app.wanted_polls(none).list);
    app.main.list_due = false;
    app.main.detail_due = false;
    assert_eq!(app.wanted_polls(none), none);
    assert_eq!(
        app.wanted_polls(all),
        Polls { list: true, detail: true, feeds: false, step: false }
    );
    app.route_key(letter('u'));
    assert_eq!(
        app.wanted_polls(none),
        Polls { list: false, detail: false, feeds: true, step: false }
    );
}

#[test]
fn totals_come_and_go() {
    let mut main = MainState::new(false, false);
    let stats = StatsInfo {
        num_torrents: 1,
        active_torrents: 1,
        paused_torrents: 0,
        download_rate: 0,
        upload_rate: 0,
        total_download: 0,
        total_upload: 0,
        total_dht_nodes: 7,
        num_peers: 2,
    };
    main.take_stats(Ok(Response::Stats(stats)));
    assert_eq!(
        main.status_line(),
        " 1 torrents  1 active  0 paused  \u{2193} 0 B/s  \u{2191} 0 B/s  dht 7  peers 2 "
    );
    main.take_stats(Err("gone".to_string()));
    main.take_list(Err("gone".to_string()));
    assert!(main.daemon_unreachable);
    assert_eq!(main.status_line(), " daemon: gone ");
}

#[test]
fn clipboards_are_used_when_they_hold_a_source() {
    assert_eq!(clipboard_magnet_or_url(" x.torrent "), Some("x.torrent".to_string()));
    assert_eq!(clipboard_magnet_or_url("hello"), None);
}

#[test]
fn rejected_renames_are_told_one_by_one() {
    let answer = Ok(Response::RenameResult {
        renamed: Vec::new(),
        rejected: vec![(0, "a".to_string()), (2, "b".to_string())],
    });
    let action = PromptAction::RenameFolder { old_prefix: "x".to_string() };
    assert_eq!(settle_prompt(&action, &answer), Err("rejected: #0: a; #2: b".to_string()));
    assert_eq!(
        settle_prompt(&PromptAction::Rename, &answer),
        Err("unexpected response".to_string())
    );
}

fn screen() -> Screen {
    Screen {
        sidebar: Area { x: 0, y: 1, width: 22, height: 20 },
        list: Area { x: 22, y: 1, width: 60, height: 10 },
        detail: Area { x: 22, y: 11, width: 60, height: 10 },
        tab_bar: Area { x: 23, y: 12, width: 58, height: 2 },
        boundaries: vec![27, 40],
        header_y: 2,
        drag: None,
        last_click: None,
        widths: NameMap::new(),
    }
}

fn event(kind: MouseKind, column: u16, row: u16, time: u64) -> MouseEvent {
    MouseEvent { kind, column, row, time }
}

#[test]
fn clicks_select_and_double_clicks_open() {
    let mut app = state(&["a", "b", "c"]);
    app.main.show_detail = false;
    let mut s = screen();
    s.detail = Area { x: 0, y: 0, width: 0, height: 0 };
    s.tab_bar = s.detail;
    // the border, the headers and the divider stand above the torrents
    let first = s.list.y + 3;
    handle_mouse(&mut app, &mut s, event(MouseKind::LeftDown, 30, first, 0));
    assert_eq!(app.main.selected_torrent_index(), Some(0));
    handle_mouse(&mut app, &mut s, event(MouseKind::LeftDown, 30, first + 1, 0));
    assert_eq!(app.main.selected_torrent_index(), Some(1));
    assert!(!app.main.show_detail);
    handle_mouse(&mut app, &mut s, event(MouseKind::LeftDown, 30, first + 1, 399_999_999));
    assert!(app.main.show_detail);
}

#[test]
fn dividers_are_dragged() {
    let mut app = state(&["a"]);
    let mut s = screen();
    handle_mouse(&mut app, &mut s, event(MouseKind::LeftDown, 27, 2, 0));
    assert_eq!(s.drag.unwrap().column_index, 0);
    handle_mouse(&mut app, &mut s, event(MouseKind::LeftDrag, 30, 2, 1));
    let key = app.visible_columns[0].key();
    let width = Column::Index.default_width_cells() + 3;
    assert_eq!(s.widths.get(key), Some(&width));
    handle_mouse(&mut app, &mut s, event(MouseKind::LeftDrag, 0, 2, 2));
    assert_eq!(s.widths.get(key), Some(&3));
    assert!(handle_mouse(&mut app, &mut s, event(MouseKind::LeftUp, 0, 2, 3)));
    assert!(s.drag.is_none());
}

#[test]
fn tabs_are_clicked_and_panes_scrolled() {
    let mut app = state(&["a", "b", "c"]);
    let mut s = screen();
    handle_mouse(&mut app, &mut s, event(MouseKind::LeftDown, 23 + 11, 12, 0));
    assert_eq!(app.main.detail_tab, DetailTab::Peers);
    assert_eq!(app.main.focus, Pane::Detail);
    handle_mouse(&mut app, &mut s, event(MouseKind::ScrollDown, 30, 5, 0));
    assert_eq!(app.main.selected_torrent_index(), Some(2));
    assert_eq!(app.main.focus, Pane::Detail);
    handle_mouse(&mut app, &mut s, event(MouseKind::RightDown, 30, 2, 0));
    assert_eq!(app.column_picker, Some(0));
    // a prompt takes no notice of the mouse
    app.column_picker = None;
    app.main.focus = Pane::List;
    app.route_key(letter('r'));
    handle_mouse(&mut app, &mut s, event(MouseKind::ScrollUp, 30, 5, 0));
    assert_eq!(app.main.selected_torrent_index(), Some(2));
}

#[test]
fn columns_are_chosen_and_never_all_hidden() {
    let mut app = state(&[]);
    app.visible_columns = vec![Column::Index, Column::Name];
    app.route_key(shifted('C'));
    app.route_key(letter(' '));
    assert_eq!(app.visible_columns, vec![Column::Name]);
    app.route_key(letter('s'));
    app.route_key(letter(' '));
    assert_eq!(app.visible_columns, vec![Column::Name]);
    app.route_key(letter('s'));
    app.route_key(letter(' '));
    app.route_key(shifted('W'));
    assert_eq!(app.visible_columns, vec![Column::State, Column::Name]);
    assert_eq!(app.route_key(press(Code::Esc)), Effect::StoreColumns);
    assert_eq!(app.column_picker, None);
}
