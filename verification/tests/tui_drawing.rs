use monsoon::binary64::{Real32, Real64};
use monsoon::config::Config;
use monsoon::ipc::{FileInfo, PeerInfo, TorrentInfo, TrackerInfo};
use monsoon::names::{NameMap, NameSet};
use monsoon::tui::cells::{
    centred, content_row, cut_dialog_name, limited, mark_column, peer_row, priority_label,
    rate_limit_line, step_row, tracker_row, wide_dialog,
};
use monsoon::tui::columns::{
    column_boundaries, column_keys, compute_column_widths, configured_columns, format_state_with,
    Column,
};
use monsoon::tui::filters::{list_title, sidebar_items, sidebar_lines, Filters};
use monsoon::tui::keys::{Code, Key};
use monsoon::tui::list_layout::list_layout;
use monsoon::tui::mouse::Area;
use monsoon::tui::prompt::prompt_rows;
use monsoon::tui::settings::{SettingsOutcome, SettingsState};
use monsoon::tui::settings_lines::{Hints, Network, PageLine};
use monsoon::tui::tree::{build_tree_rows, filter_content_rows, filter_paths, fuzzy_match_lc};

fn area(x: u16, y: u16, width: u16, height: u16) -> Area {
    Area { x, y, width, height }
}

fn press(code: Code) -> Key {
    Key { code, control: false, alt: false, shift: false, other: false }
}

#[test]
fn priorities_have_words() {
    assert_eq!(priority_label(Some(0), false), "skip");
    assert_eq!(priority_label(Some(2), false), "low/2");
    assert_eq!(priority_label(Some(4), false), "normal");
    assert_eq!(priority_label(Some(6), false), "high/6");
    assert_eq!(priority_label(Some(7), false), "max");
    assert_eq!(priority_label(None, false), "\u{2014}");
    assert_eq!(priority_label(Some(0), true), "mixed");
}

fn file(path: &str, size: i64, priority: u8) -> FileInfo {
    FileInfo { index: 0, path: path.to_string(), size, progress: Real32 { bits: 0 }, priority }
}

#[test]
fn trees_add_up_their_folders() {
    let files = vec![file("Show/S1/a", 10, 4), file("Show/b", 20, 0), file("c", 5, 4)];
    let done = vec![10, 0, 0];
    let mut collapsed = NameSet::new();
    let rows = build_tree_rows(&files, &done, &collapsed);
    let paths: Vec<&str> = rows.iter().map(|r| r.full_path.as_str()).collect();
    assert_eq!(paths, vec!["Show", "Show/S1", "Show/S1/a", "Show/b", "c"]);
    assert_eq!(rows[0].total_size, 30);
    assert_eq!(rows[0].total_done, 10);
    assert!(rows[0].is_mixed);
    assert_eq!(rows[1].priority, Some(4));
    assert_eq!(
        content_row(&rows[2], " 100.0%"),
        vec![
            "    a".to_string(),
            "10 B".to_string(),
            " 100.0%".to_string(),
            "normal".to_string(),
            "0 B".to_string()
        ]
    );
    assert_eq!(step_row(&rows[3])[2], "skip");
    collapsed.insert("Show");
    let rows = build_tree_rows(&files, &done, &collapsed);
    let labels: Vec<&str> = rows.iter().map(|r| r.label.as_str()).collect();
    assert_eq!(labels, vec!["\u{25b8} Show", "c"]);
}

#[test]
fn filters_match_letters_in_order() {
    assert!(fuzzy_match_lc("show/ep1.mkv", "sep"));
    assert!(!fuzzy_match_lc("show/ep1.mkv", "pes"));
    assert!(fuzzy_match_lc("x", ""));
    let paths = vec!["show/a".to_string(), "film/b".to_string()];
    assert_eq!(filter_paths(&paths, "fb"), vec![1]);
    let rows = filter_content_rows(&vec![file("A", 1, 4), file("B", 2, 4)], &vec![0, 0], &vec![1]);
    assert_eq!(rows[0].label, "B");
    assert_eq!(rows[0].file_index, Some(1));
}

#[test]
fn peers_and_trackers_have_rows() {
    let peer = PeerInfo {
        ip: "10.0.0.2".to_string(),
        port: 6881,
        download_rate: 1536,
        upload_rate: 0,
        client: "c".to_string(),
        progress: Real32 { bits: 0 },
        flags: "D".to_string(),
    };
    assert_eq!(
        peer_row(&peer, "0.0%"),
        vec![
            "10.0.0.2:6881".to_string(),
            "1.5 kiB/s".to_string(),
            "0 B/s".to_string(),
            "c".to_string(),
            "0.0%".to_string(),
            "D".to_string()
        ]
    );
    let mut tracker = TrackerInfo {
        url: "udp://t".to_string(),
        tier: 1,
        verified: true,
        updating: true,
        fails: 2,
        message: "m".to_string(),
    };
    assert_eq!(tracker_row(&tracker)[3], "updating");
    tracker.updating = false;
    assert_eq!(tracker_row(&tracker)[3], "failing");
    tracker.fails = 0;
    assert_eq!(tracker_row(&tracker)[3], "ok");
}

#[test]
fn limits_are_told_where_there_are_any() {
    assert_eq!(rate_limit_line(-1, -1), None);
    assert_eq!(rate_limit_line(0, -1), Some("\u{2193} limit: \u{221e}".to_string()));
    assert_eq!(
        rate_limit_line(1536, 0),
        Some("\u{2193} limit: 1.5 kiB/s  \u{2191} limit: \u{221e}".to_string())
    );
}

#[test]
fn dialogs_lie_in_the_middle() {
    assert_eq!(centred(area(0, 0, 100, 40), 60, 10), area(20, 15, 60, 10));
    assert_eq!(centred(area(0, 0, 10, 4), 60, 10), area(0, 0, 60, 10));
    assert_eq!(limited(60, 50, 4), 46);
    assert_eq!(limited(60, 100, 4), 60);
    assert_eq!(wide_dialog(100, 40), 70);
    assert_eq!(wide_dialog(50, 40), 40);
    assert_eq!(prompt_rows(0), 1);
    assert_eq!(prompt_rows(30), 12);
}

#[test]
fn long_names_are_cut_in_the_dialog() {
    assert_eq!(cut_dialog_name("abcdef", 8), "abcdef");
    assert_eq!(cut_dialog_name("abcdefg", 8), "abcde\u{2026}");
    assert_eq!(cut_dialog_name("\u{e9}\u{e9}\u{e9}\u{e9}", 8), "\u{e9}\u{e9}\u{2026}");
}

#[test]
fn columns_fill_the_space() {
    let columns = vec![Column::Index, Column::Name, Column::State];
    let mut widths: NameMap<u16> = NameMap::new();
    widths.insert("name", 20);
    let sizes = compute_column_widths(&columns, &widths, 60);
    assert_eq!(sizes[0], Column::Index.default_width_cells());
    assert_eq!(sizes[1], 20);
    assert_eq!(sizes.iter().sum::<u16>() + 2, 60);
    let edges = column_boundaries(&sizes, 5);
    assert_eq!(edges, vec![5 + sizes[0], 5 + sizes[0] + 1 + 20]);
}

#[test]
fn columns_fill_a_narrow_space_too() {
    let widths: NameMap<u16> = NameMap::new();
    assert_eq!(compute_column_widths(&[Column::Name], &widths, 2), vec![2]);
    assert_eq!(compute_column_widths(&[Column::Index, Column::Name], &widths, 2), vec![0, 1]);
    assert_eq!(compute_column_widths(&[Column::Index, Column::Name], &widths, 4), vec![0, 3]);
    assert_eq!(compute_column_widths(&[Column::Index, Column::Name], &widths, 6), vec![2, 3]);
    assert_eq!(compute_column_widths(&[Column::Index, Column::Name], &widths, 1), vec![0, 0]);
}

#[test]
fn columns_are_stored_by_key() {
    assert_eq!(configured_columns(&vec!["nonsense".to_string()]), configured_columns(&Vec::new()));
    let columns = vec![Column::Tags, Column::Name];
    assert_eq!(configured_columns(&column_keys(&columns)), columns);
    assert_eq!(mark_column(&columns, Column::Name), " [2] ");
    assert_eq!(mark_column(&columns, Column::Up), " [ ] ");
}

#[test]
fn states_are_words_or_glyphs() {
    assert_eq!(format_state_with("checking_resume_data", false, false), "checking resume");
    assert_eq!(format_state_with("some_state", false, false), "some state");
    assert_eq!(format_state_with("seeding", false, true), "\u{f093}");
    assert_eq!(format_state_with("seeding", true, false), "paused");
}

fn torrent(name: &str) -> TorrentInfo {
    TorrentInfo {
        index: 0,
        info_hash: String::new(),
        name: name.to_string(),
        state: "downloading".to_string(),
        progress: Real64 { bits: 0 },
        download_rate: 0,
        upload_rate: 0,
        connected_peers: 0,
        total_peers: 0,
        connected_seeds: 0,
        total_seeds: 0,
        total_wanted: 0,
        total_done: 0,
        total_download: 0,
        total_upload: 0,
        num_pieces: 0,
        num_completed_pieces: 0,
        added_time: 0,
        completed_time: 0,
        save_path: String::new(),
        is_paused: false,
        is_finished: false,
        is_seeding: false,
        has_metadata: true,
        error: String::new(),
        tags: NameSet::new(),
        category: None,
        download_limit: -1,
        upload_limit: -1,
    }
}

#[test]
fn cells_show_the_torrent() {
    let t = torrent("linux.iso");
    assert_eq!(Column::Name.render(3, &t, "0.0", false), "linux.iso");
    assert_eq!(Column::Index.render(3, &t, "0.0", false), "3");
    assert_eq!(Column::State.render(3, &t, "0.0", false), "downloading");
}

#[test]
fn sidebars_count_what_they_offer() {
    let mut tagged = torrent("a");
    tagged.tags.insert("x");
    let torrents = vec![tagged, torrent("b")];
    let items = sidebar_items(&vec!["tv".to_string()], &torrents);
    // the headings, seven states, all, none, tv, all, x
    assert_eq!(items.len(), 3 + 7 + 3 + 2);
    let lines = sidebar_lines(&items, &Filters::none(), &torrents);
    assert_eq!(lines.len(), items.len());
    assert_eq!(list_title(&Filters::none(), 2, false), " torrents \u{2014} all (2) ");
    assert_eq!(list_title(&Filters::none(), 0, false), " torrents \u{2014} all (none) ");
    assert_eq!(
        list_title(&Filters::none(), 2, true),
        " torrents \u{2014} all (daemon unreachable) "
    );
}

#[test]
fn dividers_spare_the_title() {
    let columns = vec![Column::Index, Column::Name, Column::State];
    let widths: NameMap<u16> = NameMap::new();
    let layout =
        list_layout(area(0, 0, 80, 20), area(1, 1, 78, 18), &columns, &widths, " torrents ")
            .unwrap();
    assert_eq!(layout.widths.len(), 3);
    assert_eq!(layout.divider_y, Some(2));
    assert_eq!(layout.data, Some(area(1, 3, 78, 16)));
    // the first divider lies under the title
    assert_eq!(layout.boundaries.len(), 2);
    assert_eq!(layout.marks, vec![layout.boundaries[1]]);
    assert!(list_layout(area(0, 0, 5, 5), area(1, 1, 3, 3), &columns, &widths, "").is_none());
}

fn network() -> Network {
    Network {
        interfaces: vec![("eth0".to_string(), "10.0.0.2".to_string())],
        is_address: false,
    }
}

fn line_of(page: &SettingsState, label: &str) -> (bool, String, bool) {
    for line in page.body_lines(&network()) {
        if let PageLine::Setting { selected, label: own, value, restart, .. } = line {
            if own.trim() == label {
                assert!(own.chars().count() >= 32);
                return (selected, value, restart);
            }
        }
    }
    panic!("no line {}", label)
}

#[test]
fn settings_show_their_values() {
    let mut page = SettingsState::load(Config::default(), "0".to_string(), false);
    assert_eq!(page.tab_bar()[3], "[1/6]");
    let (selected, value, _) = line_of(&page, "anonymous mode");
    assert!(selected);
    assert_eq!(value, if Config::default().anonymous_mode { "\u{25cf} on" } else { "\u{25cb} off" });
    let (_, value, _) = line_of(&page, "encryption mode");
    assert!(value.contains("[enabled]"), "{}", value);
    assert_eq!(page.hints(), Hints::Page);
    page.switch_tab(true);
    assert_eq!(page.tab_bar()[3], "[6/6]");
    page.switch_tab(false);
    assert_eq!(page.tab_bar()[3], "[1/6]");
}

#[test]
fn choices_go_round() {
    let mut page = SettingsState::load(Config::default(), "0".to_string(), false);
    page.handle_settings_key(press(Code::Down));
    match page.handle_settings_key(press(Code::Enter)) {
        SettingsOutcome::Commit { key, value } => {
            assert_eq!(key, "encryption_mode");
            assert_ne!(value, Config::default().encryption_mode);
        }
        other => panic!("unexpected {:?}", other),
    }
}

#[test]
fn watched_folders_are_edited_in_place() {
    let mut config = Config::default();
    config.watch_directories = vec!["/a".to_string()];
    let mut page = SettingsState::load(config, "0".to_string(), false);
    for _ in 0..6 {
        for _ in 0..12 {
            if page.hints() != Hints::List {
                page.move_selection(1);
            }
        }
        if page.hints() != Hints::List {
            page.switch_tab(false);
        }
    }
    assert_eq!(page.hints(), Hints::List);
    assert!(page
        .body_lines(&network())
        .iter()
        .any(|l| matches!(l, PageLine::Entry { selected: true, edited: false, text } if text == "\u{25b8} /a")));
    page.handle_settings_key(press(Code::Char('a')));
    assert_eq!(page.hints(), Hints::Folder);
    for c in "/b".chars() {
        page.handle_settings_key(press(Code::Char(c)));
    }
    assert_eq!(
        page.handle_settings_key(press(Code::Enter)),
        SettingsOutcome::StoreFolders { value: "/a\n/b".to_string() }
    );
    assert_eq!(
        page.handle_settings_key(press(Code::Char('d'))),
        SettingsOutcome::StoreFolders { value: "/a".to_string() }
    );
}

#[test]
fn interfaces_are_picked() {
    let mut page = SettingsState::load(Config::default(), "0".to_string(), false);
    let mut found = false;
    for _ in 0..6 {
        for _ in 0..12 {
            if page.handle_settings_key(press(Code::Enter)) == SettingsOutcome::ListInterfaces {
                found = true;
                break;
            }
            page.handle_settings_key(press(Code::Esc));
            page.move_selection(1);
        }
        if found {
            break;
        }
        page.switch_tab(false);
    }
    assert!(found);
    page.open_interface_picker(&network().interfaces);
    page.handle_settings_key(press(Code::Home));
    page.handle_settings_key(press(Code::Down));
    assert_eq!(
        page.handle_settings_key(press(Code::Enter)),
        SettingsOutcome::Commit { key: "listen_address".to_string(), value: "eth0".to_string() }
    );
}

#[test]
fn the_selected_setting_stays_in_sight() {
    let mut page = SettingsState::load(Config::default(), "0".to_string(), false);
    page.handle_settings_key(press(Code::End));
    let lines = page.body_lines(&network()).len();
    page.keep_in_sight(lines, 2);
    assert_eq!(page.scroll as usize, lines - 2);
    page.handle_settings_key(press(Code::Home));
    page.keep_in_sight(lines, 2);
    assert_eq!(page.scroll, 0);
}

#[test]
fn unlimited_numbers_are_told() {
    let mut config = Config::default();
    config.max_connections = -1;
    config.max_uploads = 0;
    let mut page = SettingsState::load(config, "0".to_string(), false);
    for _ in 0..6 {
        let labels: Vec<String> = page
            .body_lines(&network())
            .into_iter()
            .filter_map(|l| match l {
                PageLine::Setting { value, .. } => Some(value),
                _ => None,
            })
            .collect();
        if labels.contains(&"\u{221e}  unlimited".to_string()) {
            assert!(labels.contains(&"0  (none allowed)".to_string()));
            return;
        }
        page.switch_tab(false);
    }
    panic!("no unlimited number");
}
