use monsoon::ipc::ContentLayout;
use monsoon::layout::{
    common_root, compute_content_layout_renames, compute_revert_plan, resolve_rename_input,
    sanitize_path_component,
};

fn paths(list: &[&str]) -> Vec<String> {
    list.iter().map(|s| s.to_string()).collect()
}

#[test]
fn only_changed_files_appear_in_the_plan() {
    let current = vec!["Show/a.mkv".to_string(), "Show/b.mkv".to_string()];
    let default_layout = vec!["Show/a.mkv".to_string(), "Show/Renamed/b.mkv".to_string()];
    let plan = compute_revert_plan(&current, &default_layout);
    assert_eq!(plan, vec![(1, "Show/Renamed/b.mkv".to_string())]);
}

#[test]
fn no_changes_yields_empty_plan() {
    let current = vec!["a.mkv".to_string()];
    assert!(compute_revert_plan(&current, &current).is_empty());
}

#[test]
fn mismatched_lengths_only_diff_the_overlapping_indices() {
    let current = vec!["a.mkv".to_string(), "b.mkv".to_string()];
    let default_layout = vec!["a.mkv".to_string()];
    assert!(compute_revert_plan(&current, &default_layout).is_empty());
}

#[test]
fn never_strips_root_on_multi_file() {
    let files = paths(&["Show/ep1.mkv", "Show/sub/ep2.mkv"]);
    let out = compute_content_layout_renames(&files, "Show", ContentLayout::Never);
    assert_eq!(out, vec![(0, "ep1.mkv".to_string()), (1, "sub/ep2.mkv".to_string())]);
}

#[test]
fn never_is_noop_on_single_file() {
    let files = paths(&["movie.mkv"]);
    assert!(compute_content_layout_renames(&files, "movie.mkv", ContentLayout::Never).is_empty());
}

#[test]
fn always_wraps_single_file_using_torrent_name() {
    // name differs from filename (e.g. a renamed torrent)
    let files = paths(&["movie.mkv"]);
    let out = compute_content_layout_renames(&files, "My Movie", ContentLayout::Always);
    assert_eq!(out, vec![(0, "My Movie/movie.mkv".to_string())]);
}

#[test]
fn always_is_noop_on_multi_file() {
    let files = paths(&["Show/ep1.mkv", "Show/ep2.mkv"]);
    assert!(compute_content_layout_renames(&files, "Show", ContentLayout::Always).is_empty());
}

#[test]
fn if_multiple_is_always_noop() {
    assert!(compute_content_layout_renames(&paths(&["a.mkv"]), "a.mkv", ContentLayout::IfMultiple)
        .is_empty());
    assert!(compute_content_layout_renames(
        &paths(&["X/a.mkv", "X/b.mkv"]),
        "X",
        ContentLayout::IfMultiple
    )
    .is_empty());
}

#[test]
fn sanitize_strips_separators_and_dots() {
    assert_eq!(sanitize_path_component("a/b"), Some("a_b".to_string()));
    assert_eq!(sanitize_path_component("  ..  "), None);
    assert_eq!(sanitize_path_component("Normal Name"), Some("Normal Name".to_string()));
    assert_eq!(sanitize_path_component(""), None);
}

#[test]
fn dots_and_white_space_go_together() {
    assert_eq!(sanitize_path_component(". . ."), None);
    assert_eq!(sanitize_path_component(" .. a. b . ."), Some("a. b".to_string()));
    assert_eq!(sanitize_path_component(". /. "), Some("_".to_string()));
}

#[test]
fn resolve_keeps_sibling_in_same_parent() {
    assert_eq!(resolve_rename_input("Show", "Season 2"), Ok("Show/Season 2".to_string()));
    assert_eq!(resolve_rename_input("", "Renamed"), Ok("Renamed".to_string()));
}

#[test]
fn resolve_ascends_with_dotdot() {
    assert_eq!(resolve_rename_input("Show/Season 1", "../Extras"), Ok("Show/Extras".to_string()));
    assert_eq!(resolve_rename_input("Show", "../Top"), Ok("Top".to_string()));
}

#[test]
fn resolve_rejects_escaping_root() {
    assert!(resolve_rename_input("Show", "../../Escape").is_err());
    assert!(resolve_rename_input("", "../x").is_err());
}

#[test]
fn resolve_rejects_empty_or_root() {
    assert!(resolve_rename_input("Show", "  ").is_err());
    assert!(resolve_rename_input("Show", "..").is_err());
}

#[test]
fn root_is_shared_by_all_files_or_there_is_none() {
    assert_eq!(common_root(&paths(&["Show/a", "Show/b/c"])), Some("Show".to_string()));
    assert_eq!(common_root(&paths(&["Show/a", "Other/b"])), None);
    assert_eq!(common_root(&paths(&["a"])), None);
}

#[test]
fn wrapping_and_stripping_are_opposites() {
    let bare = paths(&["movie.mkv"]);
    let wrapped = compute_content_layout_renames(&bare, "Movie", ContentLayout::Always);
    assert_eq!(wrapped, vec![(0, "Movie/movie.mkv".to_string())]);
    let two = paths(&["Movie/movie.mkv", "Movie/extra.mkv"]);
    let stripped = compute_content_layout_renames(&two, "Movie", ContentLayout::Never);
    assert_eq!(stripped[0], (0, "movie.mkv".to_string()));
}

#[test]
fn a_file_that_is_wrapped_already_stays() {
    let files = paths(&["My Movie/movie.mkv"]);
    assert!(compute_content_layout_renames(&files, "My Movie", ContentLayout::Always).is_empty());
    let out = compute_content_layout_renames(&files, "Other", ContentLayout::Always);
    assert_eq!(out, vec![(0, "Other/movie.mkv".to_string())]);
}
