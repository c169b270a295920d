use monsoon::textfield::{
    complete_filesystem_path, folder_to_list, longest_common_prefix_ci, tab_complete_path,
    CompletionSource, FolderEntry, TextField,
};

#[test]
fn new_field_starts_with_cursor_at_end() {
    let field = TextField::new("ab");
    assert_eq!(field.cursor(), 2);
}

#[test]
fn insert_at_cursor_not_just_append() {
    let mut field = TextField::new("ac");
    field.set_cursor(1);
    field.insert_char('b');
    assert_eq!(field.buffer(), "abc");
    assert_eq!(field.cursor(), 2);
}

#[test]
fn backspace_removes_before_cursor_and_moves_it_back() {
    let mut field = TextField::new("abc");
    field.set_cursor(2);
    field.backspace();
    assert_eq!(field.buffer(), "ac");
    assert_eq!(field.cursor(), 1);
}

#[test]
fn backspace_at_start_is_noop() {
    let mut field = TextField::new("abc");
    field.set_cursor(0);
    field.backspace();
    assert_eq!(field.buffer(), "abc");
    assert_eq!(field.cursor(), 0);
}

#[test]
fn delete_forward_removes_after_cursor_without_moving_it() {
    let mut field = TextField::new("abc");
    field.set_cursor(1);
    field.delete_forward();
    assert_eq!(field.buffer(), "ac");
    assert_eq!(field.cursor(), 1);
}

#[test]
fn delete_forward_at_end_is_noop() {
    let mut field = TextField::new("abc");
    field.delete_forward();
    assert_eq!(field.buffer(), "abc");
    assert_eq!(field.cursor(), 3);
}

#[test]
fn cursor_movement_clamps_at_both_ends() {
    let mut field = TextField::new("ab");
    field.move_right();
    assert_eq!(field.cursor(), 2);
    field.set_cursor(0);
    field.move_left();
    assert_eq!(field.cursor(), 0);
}

#[test]
fn home_and_end() {
    let mut field = TextField::new("abc");
    field.move_home();
    assert_eq!(field.cursor(), 0);
    field.move_end();
    assert_eq!(field.cursor(), 3);
}

#[test]
fn unicode_insert_and_backspace_do_not_panic_and_count_chars_not_bytes() {
    let mut field = TextField::new("日本語");
    assert_eq!(field.cursor(), 3);
    field.backspace();
    assert_eq!(field.buffer(), "日本");
    field.set_cursor(0);
    field.insert_char('★');
    assert_eq!(field.buffer(), "★日本");
    assert_eq!(field.cursor(), 1);
}

#[test]
fn move_word_left_skips_separators_then_word() {
    let mut field = TextField::new("foo/bar baz");
    field.set_cursor(11);
    field.move_word_left();
    assert_eq!(field.cursor(), 8);
    field.move_word_left();
    assert_eq!(field.cursor(), 4);
    field.move_word_left();
    assert_eq!(field.cursor(), 0);
}

#[test]
fn move_word_right_skips_word_then_separators() {
    let mut field = TextField::new("foo/bar baz");
    field.set_cursor(0);
    field.move_word_right();
    assert_eq!(field.cursor(), 3);
    field.move_word_right();
    assert_eq!(field.cursor(), 7);
    field.move_word_right();
    assert_eq!(field.cursor(), 11);
}

#[test]
fn delete_word_backward_removes_the_word_behind_cursor() {
    let mut field = TextField::new("foo/bar");
    field.set_cursor(7);
    field.delete_word_backward();
    assert_eq!(field.buffer(), "foo/");
    assert_eq!(field.cursor(), 4);
}

#[test]
fn delete_word_forward_removes_the_word_ahead_of_cursor() {
    let mut field = TextField::new("foo/bar");
    field.set_cursor(4);
    field.delete_word_forward();
    assert_eq!(field.buffer(), "foo/");
    assert_eq!(field.cursor(), 4);
}

#[test]
fn paste_inserts_at_cursor_and_strips_newlines() {
    let mut field = TextField::new("ac");
    field.set_cursor(1);
    field.paste("b\nX\r\n");
    assert_eq!(field.buffer(), "abXc");
}

#[test]
fn longest_common_prefix_ci_matches_case_insensitively() {
    assert_eq!(longest_common_prefix_ci(&["Downloads/Foo", "downloads/Bar"]), "Downloads/");
    assert_eq!(longest_common_prefix_ci(&[]), "");
    assert_eq!(longest_common_prefix_ci(&["abc"]), "abc");
}

#[test]
fn sibling_folder_completion_single_match() {
    let mut field = TextField::with_completion(
        "Sea",
        CompletionSource::SiblingFolders(vec!["Season 1".to_string(), "Extras".to_string()]),
    );
    field.tab_complete();
    assert_eq!(field.buffer(), "Season 1");
}

#[test]
fn sibling_folder_completion_case_insensitive() {
    let mut field = TextField::with_completion(
        "sea",
        CompletionSource::SiblingFolders(vec!["Season 1".to_string()]),
    );
    field.tab_complete();
    assert_eq!(field.buffer(), "Season 1");
}

#[test]
fn sibling_folder_completion_multiple_matches_uses_common_prefix() {
    let mut field = TextField::with_completion(
        "Sea",
        CompletionSource::SiblingFolders(vec!["Season 1".to_string(), "Season 2".to_string()]),
    );
    field.tab_complete();
    assert_eq!(field.buffer(), "Season ");
}

#[test]
fn sibling_folder_completion_no_match_is_noop() {
    let mut field = TextField::with_completion(
        "Zzz",
        CompletionSource::SiblingFolders(vec!["Season 1".to_string()]),
    );
    field.tab_complete();
    assert_eq!(field.buffer(), "Zzz");
}

#[test]
fn empty_buffer_operations_do_not_panic() {
    let mut field = TextField::new("");
    field.backspace();
    field.delete_forward();
    field.delete_word_backward();
    field.delete_word_forward();
    field.move_word_left();
    field.move_word_right();
    assert_eq!(field.buffer(), "");
    assert_eq!(field.cursor(), 0);
}

#[test]
fn word_operations_at_buffer_edges_are_noop_not_panic() {
    let mut field = TextField::new("abc");
    field.set_cursor(0);
    field.move_word_left();
    assert_eq!(field.cursor(), 0);
    field.delete_word_backward();
    assert_eq!(field.buffer(), "abc");
    field.set_cursor(3);
    field.move_word_right();
    assert_eq!(field.cursor(), 3);
    field.delete_word_forward();
    assert_eq!(field.buffer(), "abc");
}

fn entries(list: &[(&str, bool)]) -> Option<Vec<FolderEntry>> {
    Some(
        list.iter()
            .map(|(name, is_folder)| FolderEntry { name: name.to_string(), is_folder: *is_folder })
            .collect(),
    )
}

#[test]
fn path_completion_only_expands_the_part_before_the_cursor() {
    let mut field =
        TextField::with_completion("/srv/box/down TAIL", CompletionSource::Filesystem);
    field.set_cursor("/srv/box/down".chars().count());
    assert_eq!(field.tab_complete(), Some("/srv/box/".to_string()));
    field.tab_complete_filesystem(&entries(&[("downloads", true), ("notes.txt", false)]));
    assert_eq!(field.buffer(), "/srv/box/downloads/ TAIL");
    assert_eq!(field.cursor(), "/srv/box/downloads/".chars().count());
}

#[test]
fn unreadable_folders_complete_nothing() {
    assert_eq!(complete_filesystem_path("/srv/x", &None), "/srv/x");
    assert_eq!(tab_complete_path("/srv/x", &None), "/srv/x");
}

#[test]
fn several_entries_complete_to_what_they_share() {
    let both = entries(&[("Season 2", true), ("season 1", true), ("Extras", true)]);
    assert_eq!(complete_filesystem_path("/tv/se", &both), "/tv/Season ");
    assert_eq!(tab_complete_path("/tv/se", &both), "/tv/Season ");
}

#[test]
fn a_prompt_without_slash_completes_in_the_working_folder() {
    assert_eq!(folder_to_list("dow"), ".");
    assert_eq!(folder_to_list("/a/b"), "/a/");
    assert_eq!(tab_complete_path("dow", &entries(&[("zoo", true)])), "dow");
    assert_eq!(tab_complete_path("dow", &entries(&[("zoo", true), ("Downloads", true)])), "Downloads/");
    assert_eq!(complete_filesystem_path("dow", &entries(&[("zoo", true)])), "dow");
}

#[test]
fn backspace_takes_back_what_was_typed() {
    let mut field = TextField::new("ab");
    field.set_cursor(1);
    field.insert_char('x');
    field.backspace();
    assert_eq!(field.buffer(), "ab");
    assert_eq!(field.cursor(), 1);
}

#[test]
fn words_follow_unicode() {
    let mut field = TextField::new("caf\u{e9} \u{4e16}\u{754c}");
    field.move_word_left();
    assert_eq!(field.cursor(), 5);
    field.move_word_left();
    assert_eq!(field.cursor(), 0);
}

#[test]
fn completion_can_be_changed() {
    let mut field = TextField::new("Sea");
    assert_eq!(field.completion_source(), CompletionSource::Nothing);
    assert_eq!(field.tab_complete(), None);
    assert_eq!(field.buffer(), "Sea");
    field.set_completion(CompletionSource::SiblingFolders(vec!["Season 1".to_string()]));
    field.tab_complete();
    assert_eq!(field.buffer(), "Season 1");
}
