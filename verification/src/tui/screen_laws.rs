//! What the mouse does, and what the tree of files and the settings page show.

use crate::ipc::FileInfo;
use crate::text::{decimal, lowercase, split, trim};
use crate::text_laws::{ends_plainly, law_paths_are_taken_apart};
use crate::tui::app_state::AppView;
use crate::tui::columns::MIN_COLUMN_WIDTH;
use crate::tui::files::{files_of, lower_paths, matching, FilesView};
use crate::tui::filters::{after_choice, shown, sidebar_of};
use crate::tui::main_view::{DetailTab, Pane};
use crate::tui::mouse::{after_mouse, divider_at, width_now, MouseEvent, MouseKind, ScreenView};
use crate::tui::schema::FieldKind;
use crate::tui::settings_lines::{interface_named, scrolled, shown_value};
use crate::tui::tree::{
    file_row, flat_row, folder_done, folder_priority, folder_row, folder_size, in_order, lies_in,
    passing, Shared,
};
use vstd::prelude::*;

verus! {

// ----- the mouse -----

/// The mouse is looked at: the main view is shown and no prompt lies over it.
pub open spec fn heeds_mouse(v: AppView) -> bool {
    v.mode is Main && v.prompt is None
}

/// A click that takes hold of no divider.
pub open spec fn free_click(s: ScreenView, e: MouseEvent) -> bool {
    e.kind == MouseKind::LeftDown && e.row != s.header_y && e.row != s.header_y + 1
}

/// A click on a label of the tab bar shows that tab.
pub proof fn law_clicked_tabs_are_shown(v: AppView, s: ScreenView, e: MouseEvent)
    requires
        heeds_mouse(v),
        free_click(s, e),
        s.tab_bar.has(e.column, e.row),
    ensures
        ({
            let m = after_mouse(v, s, e).0.main;
            let at = e.column - s.tab_bar.x;
            &&& m.focus == Pane::Detail
            &&& at < 8 ==> m.tab == DetailTab::Trackers
            &&& 8 <= at < 11 ==> m.tab == v.main.tab
            &&& 11 <= at < 16 ==> m.tab == DetailTab::Peers
            &&& 19 <= at < 26 ==> m.tab == DetailTab::Content
            &&& at >= 26 ==> m.tab == v.main.tab
        }),
{
}

/// A click on a row of the sidebar chooses that row.
pub proof fn law_clicked_row_is_chosen(v: AppView, s: ScreenView, e: MouseEvent, k: int)
    requires
        heeds_mouse(v),
        free_click(s, e),
        !s.tab_bar.has(e.column, e.row),
        s.sidebar.has(e.column, e.row),
        e.row == s.sidebar.y + 1 + k,
        0 <= k < sidebar_of(v.main.categories, v.main.torrents).len(),
    ensures
        ({
            let m = after_mouse(v, s, e).0.main;
            &&& m.focus == Pane::Sidebar
            &&& m.sidebar.selected == Some(k as usize)
            &&& m.filters == after_choice(
                v.main.filters,
                sidebar_of(v.main.categories, v.main.torrents)[k],
            ).0
            &&& m.torrents == v.main.torrents
        }),
{
}

/// A click on a row of the list selects the torrent in it; a second one soon after on the same
/// cell shows the detail.
pub proof fn law_clicked_rows_are_selected(v: AppView, s: ScreenView, e: MouseEvent, k: int)
    requires
        heeds_mouse(v),
        free_click(s, e),
        !s.tab_bar.has(e.column, e.row),
        !s.sidebar.has(e.column, e.row),
        s.list.has(e.column, e.row),
        e.row == s.list.y + 3 + k,
        0 <= k,
        v.main.list.offset + k < shown(v.main.filters, v.main.torrents).len() <= usize::MAX,
        s.last_click is None,
    ensures
        ({
            let (once, seen, stored) = after_mouse(v, s, e);
            let again = |later: u64|
                after_mouse(once, seen, MouseEvent { time: later, ..e }).0.main.show_detail;
            &&& !stored
            &&& once.main.focus == Pane::List
            &&& once.main.list.selected == Some((v.main.list.offset + k) as usize)
            &&& once.main.show_detail == v.main.show_detail
            &&& forall|later: u64|
                e.time <= later < e.time + 400_000_000 ==> #[trigger] again(later)
            &&& forall|later: u64|
                e.time + 400_000_000 <= later ==> #[trigger] again(later) == v.main.show_detail
        }),
{
}

/// The wheel moves the list under the pointer by three rows, within those that there are.
pub proof fn law_wheel_moves_by_three(v: AppView, s: ScreenView, e: MouseEvent, row: usize)
    requires
        heeds_mouse(v),
        s.list.has(e.column, e.row),
        v.main.list.selected == Some(row),
        row < shown(v.main.filters, v.main.torrents).len() <= usize::MAX,
    ensures
        ({
            let n = shown(v.main.filters, v.main.torrents).len();
            let at = after_mouse(v, s, e).0.main.list.selected->0 as int;
            &&& e.kind == MouseKind::ScrollDown ==> at == (if row + 3 < n {
                row + 3
            } else {
                n - 1
            })
            &&& e.kind == MouseKind::ScrollUp ==> at == (if row >= 3 {
                row - 3
            } else {
                0
            })
        }),
{
}

/// The first divider at a place.
proof fn lemma_divider(boundaries: Seq<u16>, x: u16, from: int, k: int)
    requires
        0 <= from <= k < boundaries.len(),
        boundaries[k] == x,
        forall|j: int| from <= j < k ==> #[trigger] boundaries[j] != x,
    ensures
        divider_at(boundaries, x, from) == Some(k),
    decreases k - from,
{
    if from < k {
        assert(boundaries[from] != x);
        lemma_divider(boundaries, x, from + 1, k);
    }
}

/// A divider that is pressed, dragged and let go makes the column before it wider by as much,
/// and no other; the widths are stored then.
pub proof fn law_dragging_a_divider_resizes(
    v: AppView,
    s: ScreenView,
    press: MouseEvent,
    drag: MouseEvent,
    release: MouseEvent,
    k: int,
    other: Seq<char>,
)
    requires
        heeds_mouse(v),
        press.kind == MouseKind::LeftDown && drag.kind == MouseKind::LeftDrag && release.kind
            == MouseKind::LeftUp,
        press.row == s.header_y,
        0 <= k < s.boundaries.len() < v.columns.len(),
        v.columns.len() <= usize::MAX,
        s.boundaries[k] == press.column,
        forall|j: int| 0 <= j < k ==> #[trigger] s.boundaries[j] != press.column,
        MIN_COLUMN_WIDTH <= width_now(s, v.columns[k]) + drag.column - press.column <= u16::MAX,
        other != v.columns[k].key_text(),
    ensures
        ({
            let (v1, s1, w1) = after_mouse(v, s, press);
            let (v2, s2, w2) = after_mouse(v1, s1, drag);
            let (v3, s3, w3) = after_mouse(v2, s2, release);
            &&& v3 == v
            &&& !w1 && !w2 && w3
            &&& s3.drag is None
            &&& s3.widths.contains_key(v.columns[k].key_text())
            &&& s3.widths[v.columns[k].key_text()] == width_now(s, v.columns[k]) + drag.column
                - press.column
            &&& s3.widths.contains_key(other) == s.widths.contains_key(other)
            &&& s.widths.contains_key(other) ==> s3.widths[other] == s.widths[other]
        }),
{
    lemma_divider(s.boundaries, press.column, 0, k);
}

/// A click of the right button on the header of the list opens the list of columns, and nowhere
/// else does anything; other pages and prompts take no notice of the mouse.
pub proof fn law_right_button_opens_the_columns(v: AppView, s: ScreenView, e: MouseEvent)
    ensures
        heeds_mouse(v) && e.kind == MouseKind::RightDown && e.row == s.header_y && s.list.has(
            e.column,
            e.row,
        ) ==> after_mouse(v, s, e).0 == (AppView { picker: Some(0), ..v }),
        heeds_mouse(v) && e.kind == MouseKind::RightDown && e.row != s.header_y ==> after_mouse(
            v,
            s,
            e,
        ).0 == v,
        !heeds_mouse(v) ==> after_mouse(v, s, e) == (v, s, false),
{
}

// ----- the tree of files -----

/// A file lies in a folder where its path begins with the folder and a slash.
pub proof fn law_files_lie_in_their_folders(folder: Seq<char>, rest: Seq<char>, path: Seq<char>)
    ensures
        lies_in(folder + "/"@ + rest, folder),
        lies_in(path, folder) ==> path == folder || exists|r: Seq<char>|
            path == #[trigger] (folder + "/"@ + r),
{
    let start = folder + "/"@;
    let p = start + rest;
    assert(p.subrange(0, start.len() as int) =~= start);
    if lies_in(path, folder) && path != folder {
        let r = path.skip(start.len() as int);
        assert(path.subrange(0, start.len() as int) == start);
        assert(path =~= start + r);
    }
}

/// The row of a file tells what is known of it, by its name, one step in from its folder.
pub proof fn law_file_rows_tell_of_their_files(
    files: Seq<FileInfo>,
    done: Seq<i64>,
    i: int,
    folder: Seq<char>,
    name: Seq<char>,
)
    requires
        0 <= i < files.len() <= usize::MAX,
        ends_plainly(folder),
        name.len() > 0,
        !name.contains('/'),
        name != "."@,
        name != ".."@,
        files[i].path@ == folder + "/"@ + name,
    ensures
        ({
            let r = file_row(files, done, i);
            &&& r.path == files[i].path@ && r.size == files[i].size && r.done == done[i]
            &&& r.priority == Some(files[i].priority) && !r.mixed && !r.is_folder
            &&& r.file_index == Some(i as usize)
            &&& r.label == name
            &&& r.indent == folder_row(files, done, Set::empty(), folder).indent + 1
        }),
{
    law_paths_are_taken_apart(folder, name);
}

/// The row of a folder is marked as open or as collapsed and named by its last segment.
pub proof fn law_folder_rows_are_marked(
    files: Seq<FileInfo>,
    done: Seq<i64>,
    collapsed: Set<Seq<char>>,
    folder: Seq<char>,
)
    ensures
        ({
            let r = folder_row(files, done, collapsed, folder);
            let name = split(folder, '/').last();
            &&& r.is_folder && r.path == folder && r.file_index is None
            &&& collapsed.contains(folder) ==> r.label == "\u{25b8} "@ + name
            &&& !collapsed.contains(folder) ==> r.label == "\u{25be} "@ + name
        }),
{
}

/// A folder is as large as the files in it together, and as much of it is done.
pub proof fn law_folders_add_up(files: Seq<FileInfo>, done: Seq<i64>, folder: Seq<char>, n: int)
    requires
        0 <= n <= files.len() == done.len(),
    ensures
        folder_size(files, folder, n) == files.take(n).fold_left(
            0int,
            |sum: int, f: FileInfo| sum + if lies_in(f.path@, folder) { f.size as int } else { 0 },
        ),
        (forall|i: int| 0 <= i < n ==> !lies_in((#[trigger] files[i]).path@, folder))
            ==> folder_size(files, folder, n) == 0 && folder_done(files, done, folder, n) == 0,
        (forall|i: int| 0 <= i < n ==> (#[trigger] done[i]) == files[i].size) ==> folder_done(
            files,
            done,
            folder,
            n,
        ) == folder_size(files, folder, n),
    decreases n,
{
    if n > 0 {
        law_folders_add_up(files, done, folder, n - 1);
        assert(files.take(n).drop_last() =~= files.take(n - 1));
        assert(done[n - 1] == done[n - 1]);
    }
}

/// A folder shows the priority that all its files share; where two differ it shows that they do.
pub proof fn law_folders_show_what_their_files_share(
    files: Seq<FileInfo>,
    folder: Seq<char>,
    n: int,
    p: u8,
)
    requires
        0 <= n <= files.len(),
    ensures
        folder_priority(files, folder, n) == Shared::Same(p) ==> (forall|i: int|
            0 <= i < n && lies_in((#[trigger] files[i]).path@, folder) ==> files[i].priority == p),
        folder_priority(files, folder, n) is Empty <==> (forall|i: int|
            0 <= i < n ==> !lies_in((#[trigger] files[i]).path@, folder)),
        folder_priority(files, folder, n) is Mixed ==> exists|i: int, j: int|
            #![trigger files[i], files[j]]
            0 <= i < n && 0 <= j < n && lies_in(files[i].path@, folder) && lies_in(
                files[j].path@,
                folder,
            ) && files[i].priority != files[j].priority,
    decreases n,
{
    if n > 0 {
        let before = folder_priority(files, folder, n - 1);
        law_folders_show_what_their_files_share(files, folder, n - 1, p);
        if let Shared::Same(q) = before {
            law_folders_show_what_their_files_share(files, folder, n - 1, q);
            if lies_in(files[n - 1].path@, folder) && files[n - 1].priority != q {
                let i = choose|i: int| 0 <= i < n - 1 && lies_in((#[trigger] files[i]).path@, folder);
                assert(files[i].priority != files[n - 1].priority);
            }
        }
        if before is Mixed {
            let (i, j) = choose|i: int, j: int|
                #![trigger files[i], files[j]]
                0 <= i < n - 1 && 0 <= j < n - 1 && lies_in(files[i].path@, folder) && lies_in(
                    files[j].path@,
                    folder,
                ) && files[i].priority != files[j].priority;
            assert(files[i].priority != files[j].priority);
        }
        assert(files[n - 1] == files[n - 1]);
    }
}

// ----- searching among files -----

/// The characters of the needle stand in the text at those positions, one behind the other.
pub open spec fn found_at(hay: Seq<char>, needle: Seq<char>, at: Seq<int>) -> bool {
    &&& at.len() == needle.len()
    &&& forall|i: int|
        0 <= i < at.len() ==> 0 <= #[trigger] at[i] < hay.len() && hay[at[i]] == needle[i]
    &&& forall|i: int, j: int| 0 <= i < j < at.len() ==> #[trigger] at[i] < #[trigger] at[j]
}

/// A filter lets a text through where its characters stand in the text one behind the other,
/// with anything between them.
pub proof fn law_filters_find_characters_in_order(hay: Seq<char>, needle: Seq<char>)
    ensures
        in_order(hay, needle) <==> exists|at: Seq<int>| found_at(hay, needle, at),
    decreases hay.len(),
{
    if needle.len() == 0 {
        assert(found_at(hay, needle, Seq::empty()));
    } else if hay.len() > 0 {
        let h = hay.skip(1);
        let rest = if hay[0] == needle[0] {
            needle.skip(1)
        } else {
            needle
        };
        law_filters_find_characters_in_order(h, rest);
        if in_order(hay, needle) {
            let at = choose|at: Seq<int>| found_at(h, rest, at);
            let moved = at.map_values(|k: int| k + 1);
            if hay[0] == needle[0] {
                let all = seq![0int] + moved;
                assert forall|i: int| 0 <= i < all.len() implies 0 <= #[trigger] all[i] < hay.len()
                    && hay[all[i]] == needle[i] by {
                    if i > 0 {
                        assert(h[at[i - 1]] == rest[i - 1]);
                    }
                }
                assert forall|i: int, j: int| 0 <= i < j < all.len() implies #[trigger] all[i]
                    < #[trigger] all[j] by {
                    if i > 0 {
                        assert(at[i - 1] < at[j - 1]);
                    } else {
                        assert(0 <= at[j - 1]);
                    }
                }
                assert(found_at(hay, needle, all));
            } else {
                assert forall|i: int| 0 <= i < moved.len() implies 0 <= #[trigger] moved[i]
                    < hay.len() && hay[moved[i]] == needle[i] by {
                    assert(h[at[i]] == rest[i]);
                }
                assert forall|i: int, j: int| 0 <= i < j < moved.len() implies #[trigger] moved[i]
                    < #[trigger] moved[j] by {
                    assert(at[i] < at[j]);
                }
                assert(found_at(hay, needle, moved));
            }
        }
        if exists|at: Seq<int>| found_at(hay, needle, at) {
            let at = choose|at: Seq<int>| found_at(hay, needle, at);
            assert(hay[at[0]] == needle[0]);
            let moved = at.map_values(|k: int| k - 1);
            if hay[0] == needle[0] {
                let fewer = moved.skip(1);
                assert forall|i: int| 0 <= i < fewer.len() implies 0 <= #[trigger] fewer[i]
                    < h.len() && h[fewer[i]] == rest[i] by {
                    assert(at[0] < at[i + 1]);
                    assert(hay[at[i + 1]] == needle[i + 1]);
                }
                assert forall|i: int, j: int| 0 <= i < j < fewer.len() implies #[trigger] fewer[i]
                    < #[trigger] fewer[j] by {
                    assert(at[i + 1] < at[j + 1]);
                }
                assert(found_at(h, rest, fewer));
            } else {
                assert(at[0] != 0);
                assert forall|i: int| 0 <= i < moved.len() implies 0 <= #[trigger] moved[i]
                    < h.len() && h[moved[i]] == rest[i] by {
                    assert(i > 0 ==> at[0] < at[i]);
                    assert(hay[at[i]] == needle[i]);
                }
                assert forall|i: int, j: int| 0 <= i < j < moved.len() implies #[trigger] moved[i]
                    < #[trigger] moved[j] by {
                    assert(at[i] < at[j]);
                }
                assert(found_at(h, rest, moved));
            }
        }
    } else {
        if exists|at: Seq<int>| found_at(hay, needle, at) {
            let at = choose|at: Seq<int>| found_at(hay, needle, at);
            assert(0 <= at[0] < hay.len());
        }
    }
}

/// The files that a filter shows are those whose paths it lets through, whatever the case.
pub proof fn law_filtered_files_are_those_that_match(v: FilesView, i: usize)
    requires
        v.filter.len() > 0,
        files_of(v.detail).len() <= usize::MAX,
    ensures
        matching(v).contains(i) <==> i < files_of(v.detail).len() && in_order(
            lowercase(files_of(v.detail)[i as int].path@),
            lowercase(v.filter),
        ),
{
    let paths = lower_paths(files_of(v.detail));
    lemma_passing(paths, lowercase(v.filter), paths.len() as int, i);
}

/// The positions that pass are those of the paths that match.
proof fn lemma_passing(paths: Seq<Seq<char>>, filter: Seq<char>, n: int, i: usize)
    requires
        0 <= n <= paths.len() <= usize::MAX,
    ensures
        passing(paths, filter, n).contains(i) <==> i < n && in_order(paths[i as int], filter),
    decreases n,
{
    if n > 0 {
        let before = passing(paths, filter, n - 1);
        let all = passing(paths, filter, n);
        lemma_passing(paths, filter, n - 1, i);
        if before.contains(i) {
            assert(all[before.index_of(i)] == i);
        }
        if in_order(paths[n - 1], filter) {
            assert(all[before.len() as int] == (n - 1) as usize);
            if all.contains(i) {
                let k = all.index_of(i);
                if k < before.len() {
                    assert(before[k] == i);
                }
            }
        }
    }
}

/// A row of a filtered list tells what is known of its file, by its whole path.
pub proof fn law_filtered_rows_tell_of_their_files(files: Seq<FileInfo>, done: Seq<i64>, i: int)
    requires
        0 <= i < files.len() <= usize::MAX,
    ensures
        ({
            let r = flat_row(files, done, i);
            &&& r.path == files[i].path@ && r.label == files[i].path@ && r.indent == 0
            &&& r.size == files[i].size && r.done == done[i] && r.file_index == Some(i as usize)
            &&& r.priority == Some(files[i].priority) && !r.is_folder && !r.mixed
        }),
{
}

// ----- the settings page -----

/// A switch is shown as on or off, a number without a bound as endless, and an interface with
/// its address; other values are shown as they are.
pub proof fn law_values_are_shown(
    value: Seq<char>,
    n: int,
    interfaces: Seq<(Seq<char>, Seq<char>)>,
    literal: bool,
)
    requires
        0 < n <= i32::MAX,
    ensures
        shown_value(FieldKind::Bool, "true"@, interfaces, literal) == "\u{25cf} on"@,
        value != "true"@ ==> shown_value(FieldKind::Bool, value, interfaces, literal)
            == "\u{25cb} off"@,
        shown_value(FieldKind::IntegerUnlimited, decimal(-1), interfaces, literal)
            == "\u{221e}  unlimited"@,
        shown_value(FieldKind::IntegerUnlimited, decimal(0), interfaces, literal)
            == "0  (none allowed)"@,
        shown_value(FieldKind::IntegerUnlimited, decimal(n), interfaces, literal) == decimal(n),
        shown_value(FieldKind::Text, value, interfaces, literal) == value,
        shown_value(FieldKind::Integer, value, interfaces, literal) == value,
        trim(value).len() == 0 ==> shown_value(FieldKind::Interface, value, interfaces, literal)
            == "any (all interfaces)"@,
        trim(value).len() > 0 && interface_named(interfaces, value, 0) is Some ==> shown_value(
            FieldKind::Interface,
            value,
            interfaces,
            literal,
        ) == value + "  ("@ + interface_named(interfaces, value, 0)->0 + ")"@,
{
    crate::text_laws::law_decimals_are_read_back(-1);
    crate::text_laws::law_decimals_are_read_back(0);
    crate::text_laws::law_decimals_are_read_back(n);
}

/// An interface is shown with the first address that it has.
pub proof fn law_interfaces_have_their_addresses(
    interfaces: Seq<(Seq<char>, Seq<char>)>,
    from: int,
    k: int,
)
    requires
        0 <= from <= k < interfaces.len(),
        forall|j: int| from <= j < k ==> (#[trigger] interfaces[j]).0 != interfaces[k].0,
    ensures
        interface_named(interfaces, interfaces[k].0, from) == Some(interfaces[k].1),
    decreases k - from,
{
    if from < k {
        assert(interfaces[from].0 != interfaces[k].0);
        law_interfaces_have_their_addresses(interfaces, from + 1, k);
    }
}

/// The page does not scroll while the selected line is in sight, and no further than it must.
pub proof fn law_pages_scroll_no_further_than_needed(scroll: int, row: int, lines: int, height: int)
    requires
        0 < height <= lines,
        0 <= row < lines,
        0 <= scroll <= lines - height,
    ensures
        scroll <= row < scroll + height ==> scrolled(scroll, row, lines, height) == scroll,
        row < scroll ==> scrolled(scroll, row, lines, height) == row,
        row >= scroll + height ==> scrolled(scroll, row, lines, height) + height == row + 1,
{
}

} // verus!
