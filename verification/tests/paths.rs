use monsoon::config::Config;
use monsoon::folders::Folders;
use monsoon::order::sort_texts;
use monsoon::paths::{join_path, name_of, parent_of, path_segments};

const SAMPLES: [&str; 22] = [
    "", "/", "//", "a", "a/", "a//", "/a", "/a/", "//a//b", "a/b", "a/b/", "a/./b", "a/b/.", ".",
    "./", "..", "a/..", "../", "./a", "/.", "a/./.", "/..",
];

#[test]
fn parents_and_names_are_those_of_the_system() {
    for sample in SAMPLES {
        let path = std::path::Path::new(sample);
        assert_eq!(
            parent_of(sample),
            path.parent().map(|p| p.to_string_lossy().to_string()),
            "parent of {:?}",
            sample
        );
        assert_eq!(
            name_of(sample),
            path.file_name().map(|p| p.to_string_lossy().to_string()),
            "name of {:?}",
            sample
        );
    }
}

#[test]
fn joining_is_that_of_the_system() {
    for folder in SAMPLES {
        for name in ["x", "/x", "x/y", ""] {
            assert_eq!(
                join_path(folder, name),
                std::path::Path::new(folder).join(name).to_string_lossy(),
                "{:?} {:?}",
                folder,
                name
            );
        }
    }
}

#[test]
fn segments_are_what_slashes_separate() {
    assert_eq!(path_segments("/a//b/"), vec!["a".to_string(), "b".to_string()]);
    assert!(path_segments("/").is_empty());
}

#[test]
fn sorting_is_that_of_the_system() {
    let mut list: Vec<String> =
        ["b", "a/", "a", "\u{e9}", "Z", "", "ab", "b"].iter().map(|s| s.to_string()).collect();
    let sorted = sort_texts(&list);
    list.sort();
    assert_eq!(sorted, list);
}

#[test]
fn files_lie_in_their_folders() {
    let folders = Folders::from_dirs(
        Some(("/c".to_string(), "/d".to_string())),
        Some("/run/user/7".to_string()),
        true,
    )
    .unwrap();
    assert_eq!(Config::config_path(&folders), "/c/config.toml");
    assert_eq!(Config::categories_path(&folders), "/c/categories.toml");
    assert_eq!(Config::tag_rules_path(&folders), "/c/rules.toml");
    assert_eq!(Config::feeds_path(&folders), "/c/feeds.toml");
    assert_eq!(Config::torrent_list_path(&folders), "/d/torrents.json");
    assert_eq!(Config::rss_seen_path(&folders), "/d/rss_seen.json");
    assert_eq!(Config::log_path(&folders), "/d/daemon.log");
    assert_eq!(Config::resume_path(&folders, "abc"), "/d/resume/abc.resume");
    assert_eq!(Config::socket_path(&folders), "/run/user/7/monsoon.sock");
    assert_eq!(Config::pid_path(&folders), "/run/user/7/monsoon.pid");
}

#[test]
fn without_a_runtime_folder_the_data_folder_serves() {
    let folders = Folders::from_dirs(
        Some(("/c".to_string(), "/d".to_string())),
        Some("/gone".to_string()),
        false,
    )
    .unwrap();
    assert_eq!(Config::socket_path(&folders), "/d/monsoon.sock");
    assert_eq!(Config::pid_path(&folders), "/d/monsoon.pid");
    assert_eq!(
        Folders::from_dirs(None, None, false),
        Err("determine app directories".to_string())
    );
}

#[test]
fn this_user_has_folders() {
    let folders = Folders::locate(Some("/monsoon-does-not-exist".to_string())).unwrap();
    assert_eq!(folders.runtime, None);
    assert!(folders.config.ends_with("monsoon"), "{}", folders.config);
    assert!(folders.data.ends_with("monsoon"), "{}", folders.data);
    let folders = Folders::locate(Some("/".to_string())).unwrap();
    assert_eq!(folders.runtime, Some("/".to_string()));
}
