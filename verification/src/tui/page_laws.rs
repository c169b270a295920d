//! What the forms, the pages and the answers of the daemon come to.

use crate::display::{byte_text, rate_text, shown_time};
use crate::ipc::{PeerInfo, RequestView, Response, StatsInfo, TorrentInfo, TrackerInfo};
use crate::names::NameMap;
use crate::text::{decimal, join, trim};
use crate::tui::add_form::{
    after_answer, after_form_key, form_values, run_request, run_started, run_summary, AddStage,
    FormView, OptionsView, RunView,
};
use crate::tui::app_state::{
    after_key, after_reply_to, polls_due, AppView, EffectView, ModeView, Polls, TopicView,
};
use crate::tui::cells::{
    content_cells, limits_text, missing, peer_cells, priority_text, step_cells, tracker_cells,
};
use crate::tui::columns::{
    boundary, cell_text, dragged_width, first_of, leading_widths, proposed, shifted, state_text,
    toggled, total, Column, MIN_COLUMN_WIDTH,
};
use crate::tui::feeds::{feed_removed, feeds_listed, feeds_polled, FeedsView};
use crate::tui::filters::shown;
use crate::tui::key_laws::{bare_key, nothing_over, plain_key};
use crate::tui::keys::Code;
use crate::tui::main_view::{MainView, PurposeView};
use crate::tui::prompt::{settled, ActionView};
use crate::tui::replies::{after_list, after_reply, after_stats};
use crate::tui::schema::{
    is_list, key_text, kind_of, options, tab_start, value_text, Choice, FieldKind,
};
use crate::tui::settings::{
    after_settings_key, change_status, next_option, position_or_first, OutcomeView, PickerView,
    SettingsView,
};
use crate::tui::tree::RowView;
use vstd::prelude::*;

verus! {

// ----- the form of options -----

/// Enter on a field of the form changes that option of the current source and no other: the
/// switches go to and fro.
pub proof fn law_form_fields_change_their_options(v: FormView)
    requires
        v.edit is None,
        0 <= v.current < v.options.len() == v.entries.len(),
        0 <= v.field <= 3,
    ensures
        ({
            let o = v.options[v.current];
            let after = after_form_key(v, bare_key(Code::Enter)).0;
            let p = after.options[v.current];
            &&& after_form_key(v, bare_key(Code::Enter)).1 is Stay
            &&& after_form_key(v, plain_key(' ')) == after_form_key(v, bare_key(Code::Enter))
            &&& after.current == v.current && after.entries == v.entries
            &&& forall|k: int|
                0 <= k < v.options.len() && k != v.current ==> #[trigger] after.options[k]
                    == v.options[k]
            &&& p.start == (o.start != (v.field == 0))
            &&& p.sequential == (o.sequential != (v.field == 1))
            &&& p.first_last == (o.first_last != (v.field == 2))
            &&& v.field != 3 ==> p.layout == o.layout
            &&& v.field == 3 ==> p.layout != o.layout
            &&& p.save_path == o.save_path
        }),
{
}

/// The save path is edited from what it is, and taken with enter; esc leaves it.
pub proof fn law_save_path_is_edited(v: FormView, c: char)
    requires
        v.edit is None,
        0 <= v.current < v.options.len() == v.entries.len(),
        v.field == 4,
    ensures
        ({
            let o = v.options[v.current];
            let opened = after_form_key(v, bare_key(Code::Enter)).0;
            let typed = after_form_key(opened, plain_key(c)).0;
            let taken = after_form_key(typed, bare_key(Code::Enter)).0;
            let left = after_form_key(typed, bare_key(Code::Esc)).0;
            &&& opened.edit == Some(o.save_path)
            &&& taken.edit is None
            &&& taken.options[v.current] == (OptionsView { save_path: o.save_path.push(c), ..o })
            &&& left.edit is None && left.options == v.options
        }),
{
}

/// The last field leads to the next source, and behind the last source everything is added.
pub proof fn law_form_goes_through_the_sources(v: FormView)
    requires
        v.edit is None,
        0 <= v.current < v.options.len() == v.entries.len(),
        v.field == 5,
    ensures
        ({
            let (after, out) = after_form_key(v, bare_key(Code::Enter));
            &&& v.current + 1 < v.entries.len() ==> out is Stay && after.current == v.current + 1
                && after.field == 0
            &&& v.current + 1 == v.entries.len() ==> out is Dispatch
            &&& after.options == v.options && after.entries == v.entries
        }),
{
}

/// Down and up go through the six fields in a round, and undo each other.
pub proof fn law_form_fields_lie_in_a_round(v: FormView)
    requires
        v.edit is None,
        0 <= v.field <= 5,
    ensures
        v.field < 5 ==> after_form_key(v, bare_key(Code::Down)).0.field == v.field + 1,
        v.field == 5 ==> after_form_key(v, bare_key(Code::Down)).0.field == 0,
        after_form_key(after_form_key(v, bare_key(Code::Down)).0, bare_key(Code::Up)).0 == v,
{
}

/// The form shows the options of the current source in the order of its fields.
pub proof fn law_form_shows_the_options(v: FormView)
    requires
        0 <= v.current < v.options.len(),
    ensures
        ({
            let o = v.options[v.current];
            let on = "\u{25cf} on"@;
            let off = "\u{25cb} off"@;
            let s = form_values(v);
            &&& s.len() == 6
            &&& s[0] == (if o.start { on } else { off })
            &&& s[1] == (if o.sequential { on } else { off })
            &&& s[2] == (if o.first_last { on } else { off })
            &&& v.edit is None && o.save_path.len() > 0 ==> s[4] == o.save_path
        }),
{
}

// ----- adding -----

/// Each source is added as its options say: to its folder where it has one, paused where it is
/// not to start, in its layout.
pub proof fn law_sources_are_added_as_chosen(v: RunView)
    requires
        v.stage == AddStage::Add,
        0 <= v.at < v.entries.len() == v.options.len(),
    ensures
        ({
            let o = v.options[v.at];
            &&& run_request(v) matches Some(RequestView::Add {
                uri,
                save_path,
                category,
                start_paused,
                content_layout,
            })
            &&& uri == v.entries[v.at]
            &&& trim(o.save_path).len() > 0 ==> save_path == Some(o.save_path)
            &&& trim(o.save_path).len() == 0 ==> save_path is None
            &&& category is None
            &&& start_paused == !o.start
            &&& content_layout == o.layout
        }),
{
}

/// A source that was added is set up as its options say, as the last of the daemon's torrents:
/// its order of download first, then its first and last pieces. One that did not start is noted
/// with its place.
pub proof fn law_added_sources_are_set_up(
    v: RunView,
    id: String,
    list: Vec<TorrentInfo>,
    last: usize,
)
    requires
        v.stage == AddStage::Add,
        0 <= v.at < v.entries.len() == v.options.len(),
        list@.len() == last + 1,
    ensures
        ({
            let o = v.options[v.at];
            let a = after_answer(v, Ok(Response::Added { id }));
            let b = after_answer(a, Ok(Response::TorrentList(list)));
            let c = after_answer(b, Ok(Response::Done));
            let d = after_answer(c, Ok(Response::Done));
            let noted = |r: RunView|
                r.at == v.at + 1 && r.stage == AddStage::Add && r.succeeded == v.succeeded + 1
                    && r.failures == v.failures && if o.start {
                    r.paused_indices == v.paused_indices && r.paused_entries == v.paused_entries
                } else {
                    r.paused_indices == v.paused_indices.push(last) && r.paused_entries
                        == v.paused_entries.push(v.entries[v.at])
                };
            &&& o.start && !o.sequential && !o.first_last ==> noted(a)
            &&& !o.start || o.sequential || o.first_last ==> run_request(a) == Some(
                RequestView::List,
            )
            &&& !o.start && !o.sequential && !o.first_last ==> noted(b)
            &&& o.sequential ==> run_request(b) == Some(
                RequestView::SetSequential { index: last, enabled: true },
            )
            &&& o.sequential && !o.first_last ==> noted(c)
            &&& !o.sequential && o.first_last ==> run_request(b) == Some(
                RequestView::SetFirstLastPriority { index: last, enabled: true },
            ) && noted(c)
            &&& o.sequential && o.first_last ==> run_request(c) == Some(
                RequestView::SetFirstLastPriority { index: last, enabled: true },
            ) && noted(d)
        }),
{
}

/// The first source is asked for first, with nothing counted yet.
pub proof fn law_adding_begins_at_the_first(v: FormView)
    ensures
        ({
            let r = run_started(v);
            &&& r.at == 0 && r.stage == AddStage::Add && r.succeeded == 0 && r.failures.len() == 0
            &&& r.entries == v.entries && r.options == v.options
            &&& r.paused_indices.len() == 0
        }),
{
}

/// In the end it is told how many were added and which were not.
pub proof fn law_adding_is_summed_up(v: RunView)
    ensures
        v.failures.len() == 0 ==> run_summary(v) == "added "@ + decimal(v.succeeded)
            + " torrent(s)"@,
        v.failures.len() > 0 && v.succeeded > 0 ==> run_summary(v) == "added "@ + decimal(
            v.succeeded,
        ) + " ok, "@ + decimal(v.failures.len() as int) + " failed: "@ + join(v.failures, "; "@),
        v.failures.len() > 0 && v.succeeded == 0 ==> run_summary(v) == "all sources failed: "@
            + join(v.failures, "; "@),
{
}

// ----- settings -----

/// The place of a word among others that are all different.
proof fn lemma_position(words: Seq<Seq<char>>, k: int)
    requires
        words.no_duplicates(),
        0 <= k < words.len(),
    ensures
        position_or_first(words, words[k]) == k,
    decreases words.len(),
{
    if k > 0 {
        assert(words[0] != words[k]);
        let rest = words.skip(1);
        assert(rest[k - 1] == words[k]);
        assert(rest.no_duplicates()) by {
            assert forall|i: int, j: int| 0 <= i < rest.len() && 0 <= j < rest.len() && i != j implies rest[i]
                != rest[j] by {
                assert(words[i + 1] != words[j + 1]);
            }
        }
        lemma_position(rest, k - 1);
    }
}

/// A setting of several words goes from each to the one behind it, and from the last to the
/// first.
pub proof fn law_words_are_chosen_in_turn(choice: Choice, k: int)
    requires
        options(choice).no_duplicates(),
        0 <= k < options(choice).len(),
    ensures
        k + 1 < options(choice).len() ==> next_option(choice, options(choice)[k]) == options(
            choice,
        )[k + 1],
        k + 1 == options(choice).len() ==> next_option(choice, options(choice)[k]) == options(
            choice,
        )[0],
{
    let words = options(choice);
    lemma_position(words, k);
    let n = words.len() as int;
    if k + 1 < n {
        vstd::arithmetic::div_mod::lemma_small_mod((k + 1) as nat, n as nat);
    } else {
        vstd::arithmetic::div_mod::lemma_mod_self_0(n);
    }
}

/// The page shows no editor, no picker and no list.
pub open spec fn page_is_plain(page: SettingsView) -> bool {
    page.picker is None && !page.dir_editing && !is_list(page.selected) && page.edit is None
}

/// Enter on a setting sends the daemon its new value: a switch the other way, a word the next
/// one.
pub proof fn law_settings_are_sent(v: AppView, page: SettingsView)
    requires
        v.mode == ModeView::Settings(page),
        nothing_over(v),
        page_is_plain(page),
        key_text(page.selected) != "autostart"@,
    ensures
        ({
            let key = key_text(page.selected);
            let value = value_text(page.config, key, page.ratio, page.autostart);
            let sent = after_key(v, bare_key(Code::Enter)).1;
            &&& kind_of(page.selected) is Bool && value == "true"@ ==> sent == EffectView::Send(
                RequestView::SetConfig { key, value: "false"@ },
                TopicView::Setting(key, "false"@),
            )
            &&& kind_of(page.selected) is Bool && value != "true"@ ==> sent == EffectView::Send(
                RequestView::SetConfig { key, value: "true"@ },
                TopicView::Setting(key, "true"@),
            )
            &&& kind_of(page.selected) matches FieldKind::Choice(choice) ==> sent
                == EffectView::Send(
                RequestView::SetConfig { key, value: next_option(choice, value) },
                TopicView::Setting(key, next_option(choice, value)),
            )
        }),
{
}

/// A text or a number is edited from what it is, and sent with enter; esc leaves it.
pub proof fn law_values_are_edited(v: AppView, page: SettingsView, c: char)
    requires
        v.mode == ModeView::Settings(page),
        nothing_over(v),
        page_is_plain(page),
        key_text(page.selected) != "autostart"@,
        !(kind_of(page.selected) is Bool || kind_of(page.selected) is Choice || kind_of(
            page.selected,
        ) is Interface),
    ensures
        ({
            let key = key_text(page.selected);
            let value = value_text(page.config, key, page.ratio, page.autostart);
            let (opened, first) = after_key(v, bare_key(Code::Enter));
            let (typed, second) = after_key(opened, plain_key(c));
            &&& first is Nothing && second is Nothing
            &&& after_key(typed, bare_key(Code::Enter)).1 == EffectView::Send(
                RequestView::SetConfig { key, value: value.push(c) },
                TopicView::Setting(key, value.push(c)),
            )
            &&& after_key(typed, bare_key(Code::Esc)).1 is Nothing
            &&& after_key(typed, bare_key(Code::Esc)).0.mode == v.mode
        }),
{
}

/// A watched folder is added at the end and removed where it is selected; the whole list is
/// stored, one on a line.
pub proof fn law_watched_folders_are_stored(page: SettingsView, c: char, value: Seq<char>)
    requires
        page.picker is None,
        !page.dir_editing,
        is_list(page.selected),
        0 <= page.dir_selected < page.dirs.len(),
        trim(seq![c]) == seq![c],
    ensures
        ({
            let opened = after_settings_key(page, plain_key('a'), value).0;
            let typed = after_settings_key(opened, plain_key(c), value).0;
            let (added, stored) = after_settings_key(typed, bare_key(Code::Enter), value);
            let (fewer, removed) = after_settings_key(page, plain_key('d'), value);
            &&& added.dirs == page.dirs.push(seq![c])
            &&& stored == OutcomeView::StoreFolders(join(page.dirs.push(seq![c]), "\n"@))
            &&& fewer.dirs == page.dirs.remove(page.dir_selected)
            &&& removed == OutcomeView::StoreFolders(
                join(page.dirs.remove(page.dir_selected), "\n"@),
            )
            &&& !added.dir_editing
        }),
{
    assert(Seq::<char>::empty().push(c) =~= seq![c]);
}

/// In the picker of interfaces enter stores what the selected row stands for.
pub proof fn law_picked_interface_is_stored(page: SettingsView, picker: PickerView, value: Seq<char>)
    requires
        page.picker == Some(picker),
        0 <= picker.selected < picker.items.len(),
    ensures
        ({
            let (after, out) = after_settings_key(page, bare_key(Code::Enter), value);
            let chosen = picker.items[picker.selected].1;
            &&& after.picker is None
            &&& chosen != "__specific__"@ ==> out == OutcomeView::Commit(
                key_text(page.selected),
                chosen,
            )
            &&& chosen == "__specific__"@ ==> out is Stay && after.edit == Some(value)
            &&& after_settings_key(page, bare_key(Code::Esc), value).0.picker is None
            &&& after_settings_key(page, bare_key(Code::Esc), value).1 is Stay
        }),
{
}

/// The digits lead to the tabs, each at its first setting.
pub proof fn law_digits_lead_to_tabs(page: SettingsView, value: Seq<char>)
    requires
        page_is_plain(page),
    ensures
        ({
            let to = |c: char| after_settings_key(page, plain_key(c), value).0;
            &&& to('1').tab == 0 && to('1').selected == tab_start(0)
            &&& to('2').tab == 1 && to('2').selected == tab_start(1)
            &&& to('3').tab == 2 && to('3').selected == tab_start(2)
            &&& to('0') == page
        }),
{
}

/// What the status line says of a change: what was saved, or why it was not.
pub proof fn law_changes_are_reported(saved: Seq<char>, why: String)
    ensures
        change_status(saved, Ok(Response::Done)) == saved,
        change_status(saved, Ok(Response::Failed(why))) == "error: "@ + why@,
        change_status(saved, Err(why)) == "error: "@ + why@,
{
}

// ----- columns -----

/// Where a column is first.
proof fn lemma_first(visible: Seq<Column>, column: Column)
    ensures
        0 <= first_of(visible, column) <= visible.len(),
        first_of(visible, column) < visible.len() ==> visible[first_of(visible, column)] == column,
        visible.contains(column) ==> first_of(visible, column) < visible.len(),
        forall|j: int| 0 <= j < first_of(visible, column) ==> #[trigger] visible[j] != column,
    decreases visible.len(),
{
    if visible.len() > 0 && visible[0] != column {
        let rest = visible.skip(1);
        lemma_first(rest, column);
        if visible.contains(column) {
            let k = visible.index_of(column);
            assert(rest[k - 1] == column);
        }
        assert forall|j: int| 0 <= j < first_of(visible, column) implies #[trigger] visible[j]
            != column by {
            if j > 0 {
                assert(rest[j - 1] == visible[j]);
            }
        }
    }
}

/// A column that is toggled is shown where it was not, at the end, and hidden where it was,
/// unless it is the only one; the others stay.
pub proof fn law_toggling_shows_and_hides(visible: Seq<Column>, column: Column, other: Column)
    requires
        visible.no_duplicates(),
        other != column,
    ensures
        !visible.contains(column) ==> toggled(visible, column) == visible.push(column),
        visible.contains(column) && visible.len() > 1 ==> !toggled(visible, column).contains(column),
        toggled(visible, column).contains(other) == visible.contains(other),
{
    lemma_first(visible, column);
    let k = first_of(visible, column);
    if visible.contains(column) {
        let fewer = visible.remove(k);
        assert forall|i: int| 0 <= i < fewer.len() implies #[trigger] fewer[i] != column by {
            if i < k {
                assert(fewer[i] == visible[i]);
            } else {
                assert(fewer[i] == visible[i + 1]);
            }
        }
        if visible.contains(other) {
            let m = visible.index_of(other);
            if m < k {
                assert(fewer[m] == other);
            } else {
                assert(fewer[m - 1] == other);
            }
        }
        if fewer.contains(other) {
            let m = fewer.index_of(other);
            if m < k {
                assert(visible[m] == other);
            } else {
                assert(visible[m + 1] == other);
            }
        }
    } else {
        let more = visible.push(column);
        if visible.contains(other) {
            assert(more[visible.index_of(other)] == other);
        }
        if more.contains(other) {
            assert(visible[more.index_of(other)] == other);
        }
    }
}

/// A column that is moved changes places with its neighbour, and moving it back undoes that.
pub proof fn law_moved_columns_change_places(visible: Seq<Column>, column: Column)
    requires
        visible.no_duplicates(),
        visible.contains(column),
    ensures
        ({
            let k = visible.index_of(column);
            let low = shifted(visible, column, true);
            let high = shifted(visible, column, false);
            &&& k + 1 < visible.len() ==> low[k + 1] == column && low[k] == visible[k + 1]
                && low.len() == visible.len()
            &&& k + 1 == visible.len() ==> low == visible
            &&& k > 0 ==> high[k - 1] == column && high[k] == visible[k - 1] && high.len()
                == visible.len()
            &&& k == 0 ==> high == visible
            &&& forall|i: int|
                0 <= i < visible.len() && i != k && i != k + 1 ==> #[trigger] low[i] == visible[i]
        }),
{
    lemma_first(visible, column);
    let k = visible.index_of(column);
    assert(first_of(visible, column) == k);
}

/// Each column shows what it is named after.
pub proof fn law_columns_show_what_they_name(
    index: usize,
    t: TorrentInfo,
    share: Seq<char>,
    glyphs: bool,
)
    ensures
        cell_text(Column::Index, index, t, share, glyphs) == decimal(index as int),
        cell_text(Column::Name, index, t, share, glyphs) == t.name@,
        cell_text(Column::Progress, index, t, share, glyphs) == share,
        cell_text(Column::Down, index, t, share, glyphs) == rate_text(t.download_rate),
        cell_text(Column::Up, index, t, share, glyphs) == rate_text(t.upload_rate),
        cell_text(Column::Peers, index, t, share, glyphs) == decimal(t.connected_peers as int)
            + "/"@ + decimal(t.total_peers as int),
        cell_text(Column::Seeds, index, t, share, glyphs) == decimal(t.connected_seeds as int)
            + "/"@ + decimal(t.total_seeds as int),
        cell_text(Column::Size, index, t, share, glyphs) == byte_text(t.total_wanted as u64, true),
        cell_text(Column::Downloaded, index, t, share, glyphs) == byte_text(
            t.total_download as u64,
            true,
        ),
        cell_text(Column::Uploaded, index, t, share, glyphs) == byte_text(
            t.total_upload as u64,
            true,
        ),
        cell_text(Column::AddedOn, index, t, share, glyphs) == shown_time(t.added_time),
        cell_text(Column::CompletedOn, index, t, share, glyphs) == shown_time(t.completed_time),
        cell_text(Column::SavePath, index, t, share, glyphs) == t.save_path@,
        t.category matches Some(c) ==> cell_text(Column::Category, index, t, share, glyphs) == c@,
        t.category is None ==> cell_text(Column::Category, index, t, share, glyphs).len() == 0,
        cell_text(Column::Tags, index, t, share, glyphs) == join(t.tags.list(), ","@),
        cell_text(Column::InfoHash, index, t, share, glyphs) == t.info_hash@,
        t.is_paused && !glyphs ==> cell_text(Column::State, index, t, share, glyphs) == "paused"@,
{
}

/// A state is shown in words with blanks between them.
pub proof fn law_states_are_shown_in_words(state: Seq<char>, i: int)
    requires
        state != "checking_resume_data"@,
        0 <= i < state.len(),
    ensures
        state_text(state, true, false) == "paused"@,
        state_text(state, false, false).len() == state.len(),
        state[i] == '_' ==> state_text(state, false, false)[i] == ' ',
        state[i] != '_' ==> state_text(state, false, false)[i] == state[i],
{
}

/// With room for all, each column but the last is as wide as it asks for, and the last takes
/// what is left.
pub proof fn law_columns_get_what_they_ask_for(
    visible: Seq<Column>,
    widths: NameMap<u16>,
    usable: int,
    n: int,
    i: int,
)
    requires
        0 <= i < n <= visible.len(),
        asked(visible, widths, n) + MIN_COLUMN_WIDTH <= usable,
    ensures
        leading_widths(visible, widths, usable, n).len() == n,
        leading_widths(visible, widths, usable, n)[i] == proposed(visible[i], widths),
    decreases n,
{
    lemma_asked(visible, widths, usable, n);
    let all = leading_widths(visible, widths, usable, n);
    if i < n - 1 {
        let before = leading_widths(visible, widths, usable, n - 1);
        law_columns_get_what_they_ask_for(visible, widths, usable, n - 1, i);
        assert(all[i] == before[i]);
    } else {
        lemma_asked(visible, widths, usable, n - 1);
    }
}

/// What the first columns ask for together.
pub open spec fn asked(visible: Seq<Column>, widths: NameMap<u16>, n: int) -> int
    decreases n,
{
    if n <= 0 {
        0
    } else {
        asked(visible, widths, n - 1) + proposed(visible[n - 1], widths)
    }
}

/// With room the first columns get together what they ask for.
proof fn lemma_asked(visible: Seq<Column>, widths: NameMap<u16>, usable: int, n: int)
    requires
        0 <= n <= visible.len(),
        asked(visible, widths, n) + MIN_COLUMN_WIDTH <= usable,
    ensures
        total(leading_widths(visible, widths, usable, n)) == asked(visible, widths, n),
        leading_widths(visible, widths, usable, n).len() == n,
    decreases n,
{
    if n > 0 {
        lemma_asked(visible, widths, usable, n - 1);
        let before = leading_widths(visible, widths, usable, n - 1);
        let all = leading_widths(visible, widths, usable, n);
        assert(all.drop_last() =~= before);
    }
}

/// A column asks for the width that is configured for it, else for its own, and for the least at
/// least.
pub proof fn law_configured_widths_are_asked_for(column: Column, widths: NameMap<u16>)
    ensures
        widths.has(column.key_text()) && widths.at(column.key_text()) >= MIN_COLUMN_WIDTH
            ==> proposed(column, widths) == widths.at(column.key_text()),
        !widths.has(column.key_text()) ==> proposed(column, widths) == column.default_width()
            || column.default_width() < MIN_COLUMN_WIDTH,
        proposed(column, widths) >= MIN_COLUMN_WIDTH,
{
}

/// The dividers stand behind the columns, one cell wide.
pub proof fn law_dividers_stand_between_columns(widths: Seq<int>, x: int, i: int)
    requires
        0 <= i,
        i + 1 < widths.len(),
    ensures
        boundary(widths, x, 0) == x + widths[0],
        boundary(widths, x, i + 1) == boundary(widths, x, i) + 1 + widths[i + 1],
{
    reveal_with_fuel(total, 2);
    assert(widths.take(1).drop_last() =~= Seq::<int>::empty());
    assert(widths.take(1).last() == widths[0]);
    assert(widths.take(i + 2).drop_last() =~= widths.take(i + 1));
    assert(widths.take(i + 2).last() == widths[i + 1]);
}

/// A column whose divider is dragged grows and shrinks with the pointer, down to the least
/// width.
pub proof fn law_columns_follow_the_pointer(width: u16, from: u16, to: u16)
    requires
        width + to - from <= u16::MAX,
    ensures
        width + to - from >= MIN_COLUMN_WIDTH ==> dragged_width(width, from, to) == width + to
            - from,
        width + to - from < MIN_COLUMN_WIDTH ==> dragged_width(width, from, to) == MIN_COLUMN_WIDTH,
        width >= MIN_COLUMN_WIDTH ==> dragged_width(width, from, from) == width,
{
}

// ----- cells -----

/// The priorities have names, and several in one folder are told as such.
pub proof fn law_priorities_have_names(p: u8)
    ensures
        priority_text(Some(0), false) == "skip"@,
        1 <= p <= 3 ==> priority_text(Some(p), false) == "low/"@ + decimal(p as int),
        priority_text(Some(4), false) == "normal"@,
        5 <= p <= 6 ==> priority_text(Some(p), false) == "high/"@ + decimal(p as int),
        priority_text(Some(7), false) == "max"@,
        priority_text(Some(p), true) == "mixed"@,
{
}

/// The row of a file tells its name, its size, its progress, its priority and what is missing of
/// it.
pub proof fn law_content_rows_tell(row: RowView, share: Seq<char>)
    ensures
        content_cells(row, share).len() == 5,
        content_cells(row, share)[1] == byte_text(row.size as u64, true),
        content_cells(row, share)[2] == share,
        content_cells(row, share)[3] == priority_text(row.priority, row.mixed),
        0 <= row.done <= row.size <= i64::MAX ==> content_cells(row, share)[4] == byte_text(
            (row.size - row.done) as u64,
            true,
        ),
        row.done >= row.size ==> missing(row) == 0,
        step_cells(row)[0] == content_cells(row, share)[0],
        step_cells(row)[1] == content_cells(row, share)[1],
        step_cells(row)[2] == content_cells(row, share)[3],
{
}

/// The row of a peer tells its address, both rates, its program, its progress and its flags; the
/// row of a tracker its tier, its address, its failures, what it is doing and its message.
pub proof fn law_peer_and_tracker_rows_tell(p: PeerInfo, share: Seq<char>, t: TrackerInfo)
    ensures
        peer_cells(p, share) == seq![
            p.ip@ + ":"@ + decimal(p.port as int),
            rate_text(p.download_rate),
            rate_text(p.upload_rate),
            p.client@,
            share,
            p.flags@,
        ],
        tracker_cells(t)[0] == decimal(t.tier as int),
        tracker_cells(t)[1] == t.url@,
        tracker_cells(t)[2] == decimal(t.fails as int),
        t.updating ==> tracker_cells(t)[3] == "updating"@,
        !t.updating && t.fails > 0 ==> tracker_cells(t)[3] == "failing"@,
        !t.updating && t.fails <= 0 ==> tracker_cells(t)[3] == "ok"@,
        tracker_cells(t)[4] == t.message@,
{
}

/// The limits of a torrent are told where it has its own: none as such, and no limit as endless.
pub proof fn law_limits_are_told(download: i32, upload: i32)
    ensures
        limits_text(-1i32, -1i32) is None,
        download > 0 ==> limits_text(download, -1i32) == Some(
            "\u{2193} limit: "@ + rate_text(download as i64),
        ),
        upload > 0 ==> limits_text(-1i32, upload) == Some(
            "\u{2191} limit: "@ + rate_text(upload as i64),
        ),
        limits_text(0, -1i32) == Some("\u{2193} limit: "@ + "\u{221e}"@),
        download > 0 && upload > 0 ==> limits_text(download, upload) == Some(
            "\u{2193} limit: "@ + rate_text(download as i64) + "  "@ + ("\u{2191} limit: "@
                + rate_text(upload as i64)),
        ),
{
}

// ----- answers -----

/// A list that came in is shown as it is, with a selection inside it, and clears what was wrong;
/// a daemon that did not answer is told.
pub proof fn law_lists_are_taken_up(v: MainView, list: Vec<TorrentInfo>, why: String)
    requires
        shown(v.filters, list@).len() <= usize::MAX,
    ensures
        ({
            let after = after_list(v, Ok(Response::TorrentList(list)));
            let lost = after_list(v, Err(why));
            &&& after.torrents == list@ && after.error is None && !after.unreachable
            &&& after.filters == v.filters
            &&& shown(v.filters, list@).len() > 0 ==> (after.list.selected matches Some(row) && row
                < shown(v.filters, list@).len())
            &&& v.list.selected matches Some(row) ==> row < shown(v.filters, list@).len()
                ==> after.list.selected == Some(row)
            &&& lost.unreachable && lost.torrents == v.torrents && lost.error is Some
        }),
{
}

/// The totals that came in are shown, and none where the daemon did not answer.
pub proof fn law_totals_are_taken_up(v: MainView, s: StatsInfo, why: String)
    ensures
        after_stats(v, Ok(Response::Stats(s))) == (MainView { stats: Some(s), ..v }),
        after_stats(v, Err(why)) == (MainView { stats: None, ..v }),
{
}

/// What the daemon refuses is told with its reason, whatever was asked.
pub proof fn law_refusals_are_told(v: MainView, purpose: PurposeView, why: String)
    requires
        !(purpose is Pause || purpose is Recheck || purpose is Reannounce),
    ensures
        ({
            let refused = after_reply(v, purpose, Ok(Response::Failed(why)));
            let failed = after_reply(v, purpose, Err(why));
            &&& refused.error is Some && refused.error == failed.error
            &&& refused.torrents == v.torrents && refused.filters == v.filters
            &&& purpose is Delete ==> refused.error == Some("delete"@ + ": "@ + why@)
            &&& purpose is Magnet ==> refused.error == Some("magnet"@ + ": "@ + why@)
            &&& purpose is RemoveTracker ==> refused.error == Some("remove tracker"@ + ": "@ + why@)
            &&& purpose is Sequential ==> refused.error == Some("sequential"@ + ": "@ + why@)
            &&& purpose is Priority ==> refused.error == Some("priority"@ + ": "@ + why@)
        }),
{
}

/// What was carried out is told, and what it changed is asked for again.
pub proof fn law_done_work_is_told(v: MainView, i: usize, url: Seq<char>, uri: String)
    ensures
        after_reply(v, PurposeView::Pause, Ok(Response::Done)) == (MainView {
            list_due: true,
            ..v
        }),
        after_reply(v, PurposeView::Recheck(i), Ok(Response::Done)).error == Some(
            "recheck submitted for torrent "@ + decimal(i as int),
        ),
        after_reply(v, PurposeView::Reannounce(i), Ok(Response::Done)).error == Some(
            "reannounce submitted for torrent "@ + decimal(i as int),
        ),
        after_reply(v, PurposeView::Sequential(i), Ok(Response::Done)).error == Some(
            "sequential ON for torrent "@ + decimal(i as int),
        ),
        uri@.len() > 0 ==> after_reply(v, PurposeView::Magnet, Ok(Response::Magnet(uri))).error
            == Some("magnet: "@ + uri@),
        after_reply(v, PurposeView::RemoveTracker(url), Ok(Response::Done)).error == Some(
            "removed tracker: "@ + url,
        ),
        after_reply(v, PurposeView::RemoveTracker(url), Ok(Response::Done)).detail_due,
        after_reply(v, PurposeView::Delete, Ok(Response::Done)) == v,
{
}

/// A text that was submitted is done where the daemon says so, and failed with its reason where
/// it does not; of a folder it is told how many files were renamed.
pub proof fn law_submitted_texts_are_settled(
    action: ActionView,
    why: String,
    renamed: Vec<usize>,
    rejected: Vec<(usize, String)>,
)
    ensures
        settled(action, Ok(Response::Done)) == Ok::<Option<Seq<char>>, Seq<char>>(None),
        settled(action, Ok(Response::Failed(why))) == Err::<Option<Seq<char>>, Seq<char>>(why@),
        settled(action, Err(why)) == Err::<Option<Seq<char>>, Seq<char>>(why@),
        action is RenameFolder && rejected@.len() == 0 ==> settled(
            action,
            Ok(Response::RenameResult { renamed, rejected }),
        ) == Ok::<Option<Seq<char>>, Seq<char>>(
            Some("renamed "@ + decimal(renamed@.len() as int) + " file(s)"@),
        ),
        action is RenameFolder && rejected@.len() > 0 ==> settled(
            action,
            Ok(Response::RenameResult { renamed, rejected }),
        ) is Err,
{
    reveal(settled);
}

/// A prompt is closed once its text was taken, and stays with the reason where it was not.
pub proof fn law_prompts_close_when_done(v: AppView, why: String)
    requires
        v.prompt is Some,
    ensures
        ({
            let done = after_reply_to(v, TopicView::Prompt, Ok(Response::Done));
            let failed = after_reply_to(v, TopicView::Prompt, Ok(Response::Failed(why)));
            &&& done.prompt is None && done.main.list_due && done.main.detail_due
            &&& failed.prompt == v.prompt && failed.main.error == Some(why@)
        }),
{
    reveal(settled);
}

/// The list is asked for on the main page, the detail where it is shown, the feeds on theirs and
/// the files of a step while it is open: at once where that is wanted, else when it is time.
pub proof fn law_only_what_is_shown_is_asked_for(v: AppView, elapsed: Polls)
    ensures
        polls_due(v, elapsed).list <==> v.mode is Main && (v.main.list_due || elapsed.list),
        polls_due(v, elapsed).detail <==> v.mode is Main && v.main.show_detail && (
        v.main.detail_due || elapsed.detail),
        polls_due(v, elapsed).feeds <==> (v.mode matches ModeView::Feeds(page) && (page.poll_now
            || elapsed.feeds)),
        polls_due(v, elapsed).step <==> (v.step matches Some(step) && (step.poll_now
            || elapsed.step)),
{
}

/// The page of feeds shows the list that came in, with a selection inside it, and tells what
/// became of what was asked.
pub proof fn law_feeds_are_taken_up(
    v: FeedsView,
    list: Seq<crate::ipc::FeedInfo>,
    index: usize,
    why: String,
)
    requires
        list.len() <= usize::MAX,
    ensures
        feeds_listed(v, list).feeds == list,
        list.len() > 0 ==> (feeds_listed(v, list).selection.selected matches Some(row) && row
            < list.len()),
        list.len() == 0 ==> feeds_listed(v, list).selection.selected is None,
        feed_removed(v, index, Ok(Response::Done)).poll_now,
        feed_removed(v, index, Ok(Response::Done)).status == Some(
            "feed "@ + decimal(index as int) + " removed"@,
        ),
        feed_removed(v, index, Ok(Response::Failed(why))).status == Some("error: "@ + why@),
        feeds_polled(v, Ok(Response::Done)).status == Some("poll triggered"@),
{
}

} // verus!
