//! How lines are edited and lists are walked through, on every page.

use crate::ipc::{RequestView, TorrentInfo};
use crate::textfield::common_prefix;
use crate::tui::add_form::{after_form_key, FormView};
use crate::tui::app_state::{after_key, AppView, EffectView, ModeView};
use crate::tui::cells::{indented, wide};
use crate::tui::columns::{column_named, columns_named, law_columns_are_found_by_key, Column};
use crate::tui::feeds::{after_feeds_key, FeedsView};
use crate::tui::files::{files_of, matching, selected_of};
use crate::tui::filters::{
    after_choice, are_tags, is_sidebar, shown, sidebar_of, sidebar_rows, tag_in_use, SidebarView,
    StatusFilter,
};
use crate::tui::key_laws::{bare_key, nothing_over, on_main, plain_key};
use crate::tui::keys::Code;
use crate::tui::main_view::{InputPurpose, InputView, MainView, Pane};
use crate::tui::overlays::after_input_key;
use crate::tui::page_laws::page_is_plain;
use crate::tui::priority::{after_step_key, step_torrent, StepOut, StepView};
use crate::tui::prompt::limit_on;
use crate::tui::schema::{is_list, tab_start};
use crate::tui::selection::Selection;
use crate::tui::settings::{after_settings_key, OutcomeView, PickerView, SettingsView};
use crate::tui::tree::RowView;
use vstd::prelude::*;

verus! {

// ----- lines -----

/// Backspace takes back the character that was typed last: in the path of the form, in a value
/// and a folder of the settings, in a new name and in a filter.
pub proof fn law_backspace_takes_back(
    form: FormView,
    page: SettingsView,
    step: StepView,
    value: Seq<char>,
    c: char,
)
    ensures
        form.edit is Some ==> after_form_key(
            after_form_key(form, plain_key(c)).0,
            bare_key(Code::Backspace),
        ).0 == form,
        page.picker is None && !page.dir_editing && !is_list(page.selected) && page.edit is Some
            ==> after_settings_key(
            after_settings_key(page, plain_key(c), value).0,
            bare_key(Code::Backspace),
            value,
        ).0 == page,
        page.picker is None && page.dir_editing ==> after_settings_key(
            after_settings_key(page, plain_key(c), value).0,
            bare_key(Code::Backspace),
            value,
        ).0 == page,
        step.rename is Some ==> after_step_key(
            after_step_key(step, plain_key(c)).0,
            bare_key(Code::Backspace),
        ).0 == step,
        step.rename is None && step.filter_active ==> ({
            let typed = after_step_key(step, plain_key(c)).0;
            let back = after_step_key(typed, bare_key(Code::Backspace)).0;
            &&& typed.files.filter == step.files.filter.push(c)
            &&& typed.files.selection.selected == Some(0usize)
            &&& back.files.filter == step.files.filter
        }),
{
    if let Some(text) = form.edit {
        assert(text.push(c).drop_last() =~= text);
    }
    if let Some(text) = page.edit {
        assert(text.push(c).drop_last() =~= text);
    }
    if let Some(text) = step.rename {
        assert(text.push(c).drop_last() =~= text);
    }
    assert(page.dir_buffer.push(c).drop_last() =~= page.dir_buffer);
    assert(step.files.filter.push(c).drop_last() =~= step.files.filter);
}

/// The line for searching says what is searched for: in the list by name, in the files by path,
/// where the first row is selected anew. Backspace takes a character back and keeps the
/// selection inside the list.
pub proof fn law_search_follows_the_line(v: MainView, input: InputView, c: char)
    requires
        shown(v.filters, v.torrents).len() <= usize::MAX,
    ensures
        ({
            let (typed, line, out) = after_input_key(v, input, plain_key(c));
            let (back, before, _) = after_input_key(typed, line, bare_key(Code::Backspace));
            &&& line.buffer == input.buffer.push(c) && line.purpose == input.purpose
            &&& before == input
            &&& input.purpose == InputPurpose::ListFilter ==> {
                &&& typed.filters.name == line.buffer
                &&& back.filters.name == input.buffer
                &&& typed.list == v.list
                &&& back.list.selected matches Some(row) ==> row < shown(
                    back.filters,
                    v.torrents,
                ).len() || shown(back.filters, v.torrents).len() > usize::MAX
                &&& v.list.selected matches Some(row) ==> row < shown(
                    back.filters,
                    v.torrents,
                ).len() ==> back.list.selected == Some(row)
            }
            &&& input.purpose == InputPurpose::ContentFilter ==> {
                &&& typed.files.filter == line.buffer
                &&& typed.files.selection.selected == Some(0usize)
                &&& back.files.filter == input.buffer
            }
        }),
{
    assert(input.buffer.push(c).drop_last() =~= input.buffer);
}

/// Tab completes the search among files to what all paths that match begin with, where that is
/// longer; the line and the filter stay the same text.
pub proof fn law_tab_completes_the_search(v: MainView, input: InputView)
    requires
        input.purpose == InputPurpose::ContentFilter,
        input.buffer == v.files.filter,
        matching(v.files).len() > 0,
    ensures
        ({
            let (after, line, _) = after_input_key(v, input, bare_key(Code::Tab));
            let paths = Seq::new(
                matching(v.files).len(),
                |k: int| files_of(v.files.detail)[matching(v.files)[k] as int].path@,
            );
            &&& line.buffer == after.files.filter
            &&& common_prefix(paths).len() > input.buffer.len() ==> line.buffer == common_prefix(
                paths,
            )
            &&& common_prefix(paths).len() <= input.buffer.len() ==> line == input && after == v
        }),
{
    let paths = Seq::new(
        matching(v.files).len(),
        |k: int| files_of(v.files.detail)[matching(v.files)[k] as int].path@,
    );
    assert(crate::tui::files::matching_paths(v.files) =~= paths);
}

/// A search among the files of a new torrent ends with enter or esc and stays in force.
pub proof fn law_search_stays_in_force(step: StepView)
    requires
        step.rename is None,
    ensures
        !step.filter_active ==> after_step_key(step, plain_key('/')).0 == (StepView {
            filter_active: true,
            ..step
        }),
        step.filter_active ==> after_step_key(step, bare_key(Code::Enter)).0 == (StepView {
            filter_active: false,
            ..step
        }),
        step.filter_active ==> after_step_key(step, bare_key(Code::Esc)).0 == (StepView {
            filter_active: false,
            ..step
        }),
{
}

/// A line for a limit that holds no number stands for the global limit, and so does one that is
/// not there.
pub proof fn law_no_number_is_the_global_limit(lines: Seq<Seq<char>>, i: int)
    ensures
        i >= lines.len() ==> limit_on(lines, i) == -1,
        0 <= i < lines.len() && crate::integers::written(crate::text::trim(lines[i]), true) is None
            ==> limit_on(lines, i) == -1,
{
}

// ----- new torrents -----

/// The name of a new torrent is renamed from what it is, a folder from its label.
pub proof fn law_new_torrents_are_renamed(step: StepView, index: usize, row: RowView, c: char)
    requires
        step.rename is None && !step.filter_active,
        step_torrent(step) == Some(index),
    ensures
        step.files.detail matches Some(d) ==> {
            let opened = after_step_key(step, plain_key('t')).0;
            let typed = after_step_key(opened, plain_key(c)).0;
            after_step_key(typed, bare_key(Code::Enter)).1 == StepOut::Send(
                RequestView::RenameTorrent { index, new_name: d.info.name@.push(c) },
            )
        },
        selected_of(step.files) == Some(row) && row.is_folder ==> {
            let opened = after_step_key(step, plain_key('r')).0;
            let typed = after_step_key(opened, plain_key(c)).0;
            after_step_key(typed, bare_key(Code::Enter)).1 == StepOut::Send(
                RequestView::RenameFolder {
                    index,
                    old_prefix: row.path,
                    new_prefix: row.label.push(c),
                },
            )
        },
        after_step_key(after_step_key(step, plain_key('t')).0, bare_key(Code::Esc)).0
            == (StepView { rename: None, target: None, ..step }),
{
}

// ----- pages -----

/// Leaving the list of columns stores them; leaving the settings shows the list anew.
pub proof fn law_pages_are_left(v: AppView, row: int, page: SettingsView)
    ensures
        v.step is None && !v.help && v.confirm is None && v.picker == Some(row) ==> after_key(
            v,
            bare_key(Code::Esc),
        ) == (AppView { picker: None, ..v }, EffectView::StoreColumns),
        v.mode == ModeView::Settings(page) && nothing_over(v) && page_is_plain(page) ==> ({
            let (after, effect) = after_key(v, bare_key(Code::Esc));
            &&& effect is Nothing
            &&& after.mode is Main && after.main.list_due
            &&& after.main.torrents == v.main.torrents
        }),
{
}

/// Choosing a row of the sidebar starts the list anew where that changes what is shown, and
/// leaves it where it does not.
pub proof fn law_choosing_starts_the_list_anew(v: AppView, k: usize)
    requires
        on_main(v),
        v.main.focus == Pane::Sidebar,
        v.main.sidebar.selected == Some(k),
        k < sidebar_of(v.main.categories, v.main.torrents).len(),
    ensures
        ({
            let after = after_key(v, bare_key(Code::Enter)).0.main;
            &&& after.filters == after_choice(
                v.main.filters,
                sidebar_of(v.main.categories, v.main.torrents)[k as int],
            ).0
            &&& after.filters != v.main.filters ==> after.list.selected == Some(0usize)
            &&& after.filters == v.main.filters ==> after.list == v.main.list
        }),
{
}

/// The sidebar has a row for every kind, for every category and for every tag that is in use,
/// and one for torrents without a category where there are such.
pub proof fn law_sidebar_has_its_rows(
    rows: Seq<SidebarView>,
    categories: Seq<Seq<char>>,
    torrents: Seq<TorrentInfo>,
    name: Seq<char>,
)
    requires
        is_sidebar(rows, categories, torrents),
    ensures
        rows.contains(SidebarView::CategoryUncategorized) <==> exists|i: int|
            0 <= i < torrents.len() && (#[trigger] torrents[i]).category is None,
        rows.contains(SidebarView::Category(name)) <==> categories.contains(name),
        rows.contains(SidebarView::Tag(name)) <==> exists|i: int|
            0 <= i < torrents.len() && (#[trigger] torrents[i]).tags.has(name),
        rows.contains(SidebarView::CategoryAll),
{
    let tags = choose|tags: Seq<Seq<char>>| #[trigger]
        are_tags(torrents, tags) && rows == sidebar_rows(
            categories,
            crate::tui::filters::any_uncategorised(torrents),
            tags,
        );
    let kinds = StatusFilter::all().map_values(|f: StatusFilter| SidebarView::Status(f));
    let s1 = seq![SidebarView::StatusHeader] + kinds + seq![
        SidebarView::CategoryHeader,
        SidebarView::CategoryAll,
    ];
    let none = if crate::tui::filters::any_uncategorised(torrents) {
        seq![SidebarView::CategoryUncategorized]
    } else {
        Seq::empty()
    };
    let named = categories.map_values(|n: Seq<char>| SidebarView::Category(n));
    let tagged = if tags.len() > 0 {
        seq![SidebarView::TagHeader, SidebarView::TagAll] + tags.map_values(
            |t: Seq<char>| SidebarView::Tag(t),
        )
    } else {
        Seq::empty()
    };
    assert(rows =~= s1 + none + named + tagged);
    let b1 = s1.len() as int;
    let b2 = b1 + none.len();
    let b3 = b2 + named.len();
    assert(rows[b1 - 1] == SidebarView::CategoryAll);
    assert forall|i: int| 0 <= i < b1 implies !(#[trigger] rows[i] is CategoryUncategorized)
        && !(rows[i] is Category) && !(rows[i] is Tag) by {
        assert(rows[i] == s1[i]);
        if 0 < i <= kinds.len() {
            assert(s1[i] == kinds[i - 1]);
        }
    }
    if none.len() > 0 {
        assert(rows[b1] == SidebarView::CategoryUncategorized);
    }
    if categories.contains(name) {
        assert(rows[b2 + categories.index_of(name)] == SidebarView::Category(name));
    }
    if tags.contains(name) {
        assert(rows[b3 + 2 + tags.index_of(name)] == SidebarView::Tag(name));
    }
    assert forall|i: int| b2 <= i < b3 implies #[trigger] rows[i] == SidebarView::Category(
        categories[i - b2],
    ) by {
        assert(rows[i] == named[i - b2]);
    }
    assert forall|i: int| b3 + 2 <= i < rows.len() implies #[trigger] rows[i] == SidebarView::Tag(
        tags[i - b3 - 2],
    ) by {
        assert(rows[i] == tagged[i - b3]);
    }
    assert(tags.contains(name) <==> tag_in_use(torrents, torrents.len() as int, name));
    if tags.len() > 0 {
        assert(rows[b3] == SidebarView::TagHeader && rows[b3 + 1] == SidebarView::TagAll);
    }
}

/// Feeds are walked through by one or by ten, without leaving the list.
pub proof fn law_feeds_are_walked_through(v: FeedsView, row: usize)
    requires
        v.selection.selected == Some(row),
        row < v.feeds.len() <= usize::MAX,
    ensures
        ({
            let n = v.feeds.len() as int;
            let at = |code: Code| after_feeds_key(v, bare_key(code)).0.selection.selected->0 as int;
            &&& at(Code::Down) == (if row + 1 < n {
                row + 1
            } else {
                n - 1
            })
            &&& at(Code::Up) == (if row > 0 {
                row - 1
            } else {
                0
            })
            &&& at(Code::PageDown) == (if row + 10 < n {
                row + 10
            } else {
                n - 1
            })
            &&& at(Code::PageUp) == (if row >= 10 {
                row - 10
            } else {
                0
            })
        }),
{
}

/// Settings are walked through in a round inside their tab: the next and the one before undo each
/// other, the first and the last are reached at once, and page keys go five on.
pub proof fn law_settings_are_walked_through(v: SettingsView, value: Seq<char>)
    requires
        page_is_plain(v),
        0 <= v.tab < 6,
        tab_start(v.tab) <= v.selected < tab_start(v.tab + 1),
    ensures
        ({
            let key = |code: Code| after_settings_key(v, bare_key(code), value).0;
            let first = tab_start(v.tab);
            let last = tab_start(v.tab + 1) - 1;
            &&& key(Code::Down).selected == (if v.selected < last {
                v.selected + 1
            } else {
                first
            })
            &&& key(Code::Up).selected == (if v.selected > first {
                v.selected - 1
            } else {
                last
            })
            &&& key(Code::Home).selected == first
            &&& key(Code::End).selected == last
            &&& first <= key(Code::PageDown).selected <= last
            &&& first <= key(Code::PageUp).selected <= last
            &&& v.selected + 5 <= last ==> key(Code::PageDown).selected == v.selected + 5
            &&& v.selected - 5 >= first ==> key(Code::PageUp).selected == v.selected - 5
            &&& key(Code::Down).tab == v.tab && key(Code::End).tab == v.tab
        }),
{
    let from = tab_start(v.tab);
    let count = tab_start(v.tab + 1) - from;
    let at = v.selected - from;
    assert(count == 13 || count == 8 || count == 4 || count == 5 || count == 2 || count == 1);
    assert(count == 13 || count == 8 || count == 4 || count == 5 || count == 2 || count == 1 ==> {
        &&& (at + 1) % count == (if at + 1 < count {
            at + 1
        } else {
            0
        })
        &&& (at - 1) % count == (if at > 0 {
            at - 1
        } else {
            count - 1
        })
        &&& 0 <= (at + 5) % count < count
        &&& 0 <= (at - 5) % count < count
    }) by (nonlinear_arith)
        requires
            0 <= at < count,
    ;
    if at + 5 < count {
        assert((at + 5) % count == at + 5) by (nonlinear_arith)
            requires
                0 <= at + 5 < count,
        ;
    }
    if at - 5 >= 0 {
        assert((at - 5) % count == at - 5) by (nonlinear_arith)
            requires
                0 <= at - 5 < count,
        ;
    }
}

/// A tab is shown from its first setting, at its top.
pub proof fn law_tabs_start_at_their_first_setting(v: SettingsView, value: Seq<char>)
    requires
        page_is_plain(v),
        0 <= v.tab < 6,
    ensures
        ({
            let right = after_settings_key(v, bare_key(Code::Tab), value).0;
            let left = after_settings_key(v, bare_key(Code::BackTab), value).0;
            &&& right.tab == (if v.tab < 5 {
                v.tab + 1
            } else {
                0
            })
            &&& left.tab == (if v.tab > 0 {
                v.tab - 1
            } else {
                5
            })
            &&& right.selected == tab_start(right.tab) && right.scroll == 0
            &&& left.selected == tab_start(left.tab) && left.scroll == 0
        }),
{
}

/// A new folder is typed behind the others, a chosen one from what it is; removing one keeps the
/// others in order.
pub proof fn law_folders_are_added_and_removed(v: SettingsView, value: Seq<char>, i: int)
    requires
        v.picker is None && !v.dir_editing,
        is_list(v.selected),
        0 <= v.dir_selected < v.dirs.len(),
        0 <= i < v.dirs.len() - 1,
    ensures
        ({
            let added = after_settings_key(v, plain_key('a'), value).0;
            let opened = after_settings_key(v, bare_key(Code::Enter), value).0;
            let removed = after_settings_key(v, plain_key('d'), value).0;
            &&& added.dir_editing && added.dir_selected == v.dirs.len() && added.dir_buffer.len()
                == 0 && added.dirs == v.dirs
            &&& opened.dir_editing && opened.dir_buffer == v.dirs[v.dir_selected]
                && opened.dir_selected == v.dir_selected
            &&& removed.dirs.len() == v.dirs.len() - 1
            &&& removed.dirs[i] == (if i < v.dir_selected {
                v.dirs[i]
            } else {
                v.dirs[i + 1]
            })
            &&& 0 <= removed.dir_selected < removed.dirs.len()
        }),
{
}

/// The list of interfaces is walked through without leaving it; esc leaves everything as it is.
pub proof fn law_interfaces_are_walked_through(
    v: SettingsView,
    picker: PickerView,
    value: Seq<char>,
)
    requires
        v.picker == Some(picker),
        0 <= picker.selected < picker.items.len(),
    ensures
        ({
            let n = picker.items.len() as int;
            let at = |code: Code|
                after_settings_key(v, bare_key(code), value).0.picker->0.selected;
            &&& at(Code::Down) == (if picker.selected + 1 < n {
                picker.selected + 1
            } else {
                n - 1
            })
            &&& at(Code::Up) == (if picker.selected > 0 {
                picker.selected - 1
            } else {
                0
            })
            &&& at(Code::Home) == 0
            &&& at(Code::End) == n - 1
            &&& after_settings_key(v, bare_key(Code::Esc), value) == (
                SettingsView { picker: None, ..v },
                OutcomeView::Stay,
            )
        }),
{
}

// ----- shapes -----

/// A dialog takes seven tenths of the room where that is enough for it and leaves some free.
pub proof fn law_dialogs_take_their_share(space: int, least: int)
    ensures
        least * 10 <= space * 7 && space >= 14 ==> wide(space, least) * 10 <= space * 7 < (wide(
            space,
            least,
        ) + 1) * 10,
        wide(space, least) >= least || wide(space, least) == space - 4,
{
}

/// A row of the tree of files stands two cells in for each folder it lies in.
pub proof fn law_rows_stand_in(row: RowView, i: int)
    requires
        row.indent >= 0,
    ensures
        indented(row).len() == 2 * row.indent + row.label.len(),
        0 <= i < 2 * row.indent ==> indented(row)[i] == ' ',
        indented(row).skip(2 * row.indent) == row.label,
{
    assert(indented(row).skip(2 * row.indent) =~= row.label);
}

/// The configured columns are shown in the order of their words; words that name none are passed
/// over.
pub proof fn law_configured_columns_are_shown(
    a: Seq<Seq<char>>,
    column: Column,
    unknown: Seq<char>,
    b: Seq<Seq<char>>,
)
    requires
        column_named(unknown) is None,
    ensures
        columns_named(a + b) == columns_named(a) + columns_named(b),
        columns_named(seq![column.key_text()]) == seq![column],
        columns_named(seq![unknown]).len() == 0,
    decreases b.len(),
{
    law_columns_are_found_by_key(column);
    assert(seq![column.key_text()].drop_last() =~= Seq::empty());
    assert(seq![unknown].drop_last() =~= Seq::empty());
    assert(columns_named(Seq::empty()).len() == 0);
    assert(seq![column.key_text()].last() == column.key_text());
    assert(columns_named(seq![column.key_text()]) =~= seq![column]);
    if b.len() == 0 {
        assert(a + b =~= a);
        assert(columns_named(a + b) =~= columns_named(a) + columns_named(b));
    } else {
        law_configured_columns_are_shown(a, column, unknown, b.drop_last());
        assert((a + b).drop_last() =~= a + b.drop_last());
        assert((a + b).last() == b.last());
        assert(columns_named(a + b) =~= columns_named(a) + columns_named(b));
    }
}

/// A selection of no row begins at the top; any other keeps its place on the screen.
pub proof fn law_selections_keep_their_place(s: Selection, row: usize)
    ensures
        s.with(None) == (Selection { selected: None, offset: 0 }),
        s.with(Some(row)) == (Selection { selected: Some(row), offset: s.offset }),
{
}

} // verus!
