use monsoon::bridge::TorrentFile;
use monsoon::names::NameSet;
use monsoon::rename::{
    check_rename_collision, folder_merge_same, plan_folder_rename, unrelated_files,
    validate_rename_name,
};

fn file(path: &str) -> TorrentFile {
    TorrentFile { path: path.to_string(), size: 1, offset: 0 }
}

#[test]
fn merge_same_detects_existing_torrent_file_under_prefix() {
    let static_files = vec!["Dest/already.txt".to_string(), "Other/x.txt".to_string()];
    assert!(folder_merge_same(&static_files, "Dest"));
    assert!(!folder_merge_same(&static_files, "Fresh"));
}

#[test]
fn only_untracked_files_are_unrelated() {
    let mut known = NameSet::new();
    known.insert("tracked.txt");
    let found =
        vec!["stray.txt".to_string(), "tracked.txt".to_string(), "sub/stray2.txt".to_string()];
    assert_eq!(
        unrelated_files(&found, &known),
        vec!["stray.txt".to_string(), "sub/stray2.txt".to_string()]
    );
}

#[test]
fn names_that_leave_the_torrent_are_refused() {
    assert!(validate_rename_name("a/b.mkv").is_ok());
    assert!(validate_rename_name("").is_err());
    assert!(validate_rename_name("/etc/passwd").is_err());
    assert!(validate_rename_name("../x").is_err());
    assert!(validate_rename_name("a/../../x").is_err());
}

#[test]
fn files_do_not_take_each_others_paths() {
    let files = [file("a"), file("b")];
    assert!(check_rename_collision(&files, 0, "c").is_ok());
    assert!(check_rename_collision(&files, 0, "a").is_ok());
    assert!(check_rename_collision(&files, 0, "b").is_err());
}

#[test]
fn folders_move_with_all_their_files() {
    let files = [file("Old/a"), file("Old/sub/b"), file("Older/c")];
    let plan = plan_folder_rename(&files, "Old", "New").unwrap();
    assert_eq!(plan.renames, vec![(0, "New/a".to_string()), (1, "New/sub/b".to_string())]);
    assert!(plan.rejected.is_empty());
}

#[test]
fn a_collision_rejects_the_whole_folder() {
    let files = [file("Old/a"), file("Old/b"), file("New/a")];
    let plan = plan_folder_rename(&files, "Old", "New").unwrap();
    assert!(plan.renames.is_empty());
    assert_eq!(plan.rejected.len(), 1);
    assert_eq!(plan.rejected[0].0, 0);
}
