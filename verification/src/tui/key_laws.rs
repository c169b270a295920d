//! What keys do, from the key that is pressed to what the daemon is asked.

use crate::integers::is_digit;
use crate::ipc::RequestView;
use crate::text::{decimal, is_space, trim, trim_back, trim_front};
use crate::text_laws::{law_decimals_are_read_back, lemma_decimal_digits};
use crate::tui::app_state::{after_key, AppView, EffectView, ModeView, TopicView};
use crate::tui::feeds::{feed_cells, feed_detail, feed_parts, FeedsView};
use crate::tui::files::{files_of, inside, selected_of, target_files};
use crate::tui::filters::shown;
use crate::tui::keys::{Code, Key};
use crate::tui::main_view::{
    focus_cycled, pane_place, selected_torrent, visible_panes, DetailTab, MainView, Pane,
    PurposeView,
};
use crate::tui::priority::{StepView, TargetView};
use crate::tui::prompt::{plan_of, ActionView, PlanView, PromptView};
use crate::tui::selection::{kept, moved};
use crate::tui::tree::lies_in;
use vstd::prelude::*;

verus! {

// ----- keys -----

/// A key without modifiers.
pub open spec fn bare_key(code: Code) -> Key {
    Key { code, control: false, alt: false, shift: false, other: false }
}

/// A character without modifiers.
pub open spec fn plain_key(c: char) -> Key {
    bare_key(Code::Char(c))
}

/// A character with shift.
pub open spec fn shift_key(c: char) -> Key {
    Key { code: Code::Char(c), control: false, alt: false, shift: true, other: false }
}

/// The main view is shown, and nothing lies over it.
pub open spec fn on_main(v: AppView) -> bool {
    v.mode is Main && nothing_over(v)
}

/// Nothing lies over the page.
pub open spec fn nothing_over(v: AppView) -> bool {
    v.step is None && !v.help && v.confirm is None && v.picker is None && v.form is None
        && v.prompt is None && v.input is None
}

// ----- the selected torrent -----

/// The selected torrent is the one that is shown in the selected row.
pub proof fn law_selected_row_is_the_torrent(v: MainView, row: usize)
    ensures
        v.list.selected == Some(row) && row < shown(v.filters, v.torrents).len()
            ==> selected_torrent(v) == Some(shown(v.filters, v.torrents)[row as int]),
        v.list.selected == Some(row) && row >= shown(v.filters, v.torrents).len()
            ==> selected_torrent(v) is None,
        v.list.selected is None ==> selected_torrent(v) is None,
{
}

/// Pausing goes to and fro: the key pauses a torrent that runs and resumes one that is paused,
/// and it is the selected one.
pub proof fn law_pause_key_goes_to_and_fro(v: AppView, i: usize)
    requires
        on_main(v),
        selected_torrent(v.main) == Some(i),
    ensures
        after_key(v, plain_key('p')).0 == v,
        v.main.torrents[i as int].is_paused ==> after_key(v, plain_key('p')).1 == EffectView::Send(
            RequestView::Resume { index: i },
            TopicView::Main(PurposeView::Pause),
        ),
        !v.main.torrents[i as int].is_paused ==> after_key(v, plain_key('p')).1
            == EffectView::Send(
            RequestView::Pause { index: i },
            TopicView::Main(PurposeView::Pause),
        ),
{
}

/// The keys that command the selected torrent ask the daemon for just that.
pub proof fn law_command_keys_ask(v: AppView, i: usize)
    requires
        on_main(v),
        selected_torrent(v.main) == Some(i),
    ensures
        after_key(v, shift_key('R')).1 == EffectView::Send(
            RequestView::Recheck { index: i },
            TopicView::Main(PurposeView::Recheck(i)),
        ),
        after_key(v, shift_key('T')).1 == EffectView::Send(
            RequestView::Reannounce { index: i },
            TopicView::Main(PurposeView::Reannounce(i)),
        ),
        after_key(v, plain_key('g')).1 == EffectView::Send(
            RequestView::Magnet { index: i },
            TopicView::Main(PurposeView::Magnet),
        ),
        after_key(v, shift_key('S')).1 == EffectView::Send(
            RequestView::SetSequential { index: i, enabled: true },
            TopicView::Main(PurposeView::Sequential(i)),
        ),
        after_key(v, shift_key('R')).0 == v,
        after_key(v, shift_key('T')).0 == v,
        after_key(v, plain_key('g')).0 == v,
        after_key(v, shift_key('S')).0 == v,
{
}

/// With no torrent selected no key asks the daemon to change one.
pub proof fn law_without_torrent_nothing_is_asked(v: AppView)
    requires
        on_main(v),
        selected_torrent(v.main) is None,
    ensures
        after_key(v, plain_key('p')).1 is Nothing,
        after_key(v, shift_key('R')).1 is Nothing,
        after_key(v, shift_key('T')).1 is Nothing,
        after_key(v, plain_key('g')).1 is Nothing,
        after_key(v, shift_key('S')).1 is Nothing,
        after_key(v, plain_key('x')).0 == v,
        after_key(v, plain_key('m')).0.prompt is None,
        after_key(v, shift_key('L')).0.prompt is None,
{
}

// ----- deleting -----

/// A torrent is deleted after a question that names it: with its files where that was chosen,
/// without them else.
pub proof fn law_deleting_asks_and_deletes(v: AppView, i: usize)
    requires
        on_main(v),
        selected_torrent(v.main) == Some(i),
    ensures
        ({
            let (asked, first) = after_key(v, plain_key('x'));
            let (chosen, second) = after_key(asked, bare_key(Code::Tab));
            &&& first is Nothing && second is Nothing
            &&& asked.confirm is Some && (asked.confirm->0).name == v.main.torrents[i as int].name@
            &&& after_key(asked, plain_key('y')).1 == EffectView::Send(
                RequestView::Remove { index: i, delete_files: false },
                TopicView::Main(PurposeView::Delete),
            )
            &&& after_key(chosen, bare_key(Code::Enter)).1 == EffectView::Send(
                RequestView::Remove { index: i, delete_files: true },
                TopicView::Main(PurposeView::Delete),
            )
            &&& after_key(asked, plain_key('n')).1 is Nothing
            &&& after_key(asked, plain_key('n')).0.confirm is None
            &&& after_key(asked, bare_key(Code::Esc)).1 is Nothing
            &&& after_key(asked, bare_key(Code::Esc)).0.confirm is None
            &&& after_key(asked, plain_key('y')).0.confirm is None
        }),
{
}

// ----- prompts -----

/// A torrent is renamed by editing the name that it has.
pub proof fn law_renaming_starts_from_the_name(v: AppView, i: usize, c: char)
    requires
        on_main(v),
        v.main.focus == Pane::List,
        selected_torrent(v.main) == Some(i),
    ensures
        ({
            let (asked, first) = after_key(v, plain_key('r'));
            let (typed, second) = after_key(asked, plain_key(c));
            let name = v.main.torrents[i as int].name@;
            &&& first is Nothing && second is Nothing
            &&& asked.prompt is Some && (asked.prompt->0).lines == seq![name]
            &&& after_key(typed, bare_key(Code::Enter)).1 == EffectView::Send(
                RequestView::RenameTorrent { index: i, new_name: name.push(c) },
                TopicView::Prompt,
            )
            &&& after_key(asked, bare_key(Code::Esc)).0.prompt is None
        }),
{
}

/// A torrent is moved by editing the folder that it lies in.
pub proof fn law_moving_starts_from_the_folder(v: AppView, i: usize, c: char)
    requires
        on_main(v),
        selected_torrent(v.main) == Some(i),
    ensures
        ({
            let (asked, first) = after_key(v, plain_key('m'));
            let (typed, second) = after_key(asked, plain_key(c));
            let folder = v.main.torrents[i as int].save_path@;
            &&& first is Nothing && second is Nothing
            &&& asked.prompt is Some && (asked.prompt->0).lines == seq![folder]
            &&& after_key(typed, bare_key(Code::Enter)).1 == EffectView::Send(
                RequestView::Move { index: i, new_save_path: folder.push(c) },
                TopicView::Prompt,
            )
        }),
{
}

/// Numbers have no white space around them.
proof fn lemma_decimal_is_trimmed(n: int)
    ensures
        trim(decimal(n)) == decimal(n),
{
    let s = decimal(n);
    if n >= 0 {
        lemma_decimal_digits(n);
        assert(is_digit(s[0]));
        assert(is_digit(s[s.len() - 1]));
    } else {
        lemma_decimal_digits(-n);
        let rest = decimal(-n);
        assert(s[0] == '-');
        assert(is_digit(rest[rest.len() - 1]));
        assert(s.last() == rest.last());
    }
    assert(!is_space(s[0]));
    assert(!is_space(s.last()));
    assert(trim_front(s) == s);
    assert(trim_back(s) == s);
}

/// The limits that a prompt shows are those of the torrent, and are set as they are shown:
/// download on the first line, upload on the second.
pub proof fn law_limits_are_shown_and_set(v: AppView, i: usize)
    requires
        on_main(v),
        selected_torrent(v.main) == Some(i),
    ensures
        ({
            let t = v.main.torrents[i as int];
            let (asked, first) = after_key(v, shift_key('L'));
            &&& first is Nothing
            &&& asked.prompt is Some && (asked.prompt->0).lines == seq![
                decimal(t.download_limit as int),
                decimal(t.upload_limit as int),
            ]
            &&& after_key(asked, bare_key(Code::Enter)).1 == EffectView::Send(
                RequestView::SetTorrentRateLimit {
                    index: i,
                    download: t.download_limit,
                    upload: t.upload_limit,
                },
                TopicView::Prompt,
            )
        }),
{
    let t = v.main.torrents[i as int];
    lemma_decimal_is_trimmed(t.download_limit as int);
    lemma_decimal_is_trimmed(t.upload_limit as int);
    law_decimals_are_read_back(t.download_limit as int);
    law_decimals_are_read_back(t.upload_limit as int);
}

/// What is typed on a line of numbers is set, and what is no number stands for the limit of the
/// whole session.
pub proof fn law_typed_limits_are_set(v: PromptView, download: int, upload: int)
    requires
        v.action is SetRateLimit,
        v.lines.len() == 2,
        v.lines[0] == decimal(download),
        v.lines[1] == decimal(upload),
        -0x8000_0000 <= download <= 0x7fff_ffff,
        -0x8000_0000 <= upload <= 0x7fff_ffff,
    ensures
        plan_of(v) == PlanView::Send(
            RequestView::SetTorrentRateLimit {
                index: v.torrent,
                download: download as i32,
                upload: upload as i32,
            },
        ),
{
    lemma_decimal_is_trimmed(download);
    lemma_decimal_is_trimmed(upload);
    law_decimals_are_read_back(download);
    law_decimals_are_read_back(upload);
}

/// What a prompt with one line sends when it is submitted: what was typed, for the torrent that
/// it was opened for.
pub proof fn law_prompts_send_what_was_typed(v: PromptView)
    requires
        v.lines.len() > 0,
    ensures
        v.action is Rename ==> plan_of(v) == PlanView::Send(
            RequestView::RenameTorrent { index: v.torrent, new_name: v.lines[0] },
        ),
        v.action is Move ==> plan_of(v) == PlanView::Send(
            RequestView::Move { index: v.torrent, new_save_path: v.lines[0] },
        ),
        v.action matches ActionView::RenameFile(f) ==> plan_of(v) == PlanView::Send(
            RequestView::RenameFile { index: v.torrent, file_index: f, new_name: v.lines[0] },
        ),
        v.action matches ActionView::RenameFolder(p) ==> plan_of(v) == PlanView::Send(
            RequestView::RenameFolder { index: v.torrent, old_prefix: p, new_prefix: v.lines[0] },
        ),
        v.action is AddTracker && trim(v.lines[0]).len() > 0 ==> plan_of(v) == PlanView::Send(
            RequestView::AddTracker { index: v.torrent, url: trim(v.lines[0]), tier: 0 },
        ),
        v.action is AddTracker && trim(v.lines[0]).len() == 0 ==> plan_of(v) is Refuse,
        v.action is AddFeed && trim(v.lines[0]).len() > 0 ==> plan_of(v) == PlanView::Send(
            RequestView::AddFeed {
                url: trim(v.lines[0]),
                filter: Seq::empty(),
                category: None,
                save_path: None,
                poll_interval_minutes: 30,
                start_paused: false,
            },
        ),
        v.action is AddFeed && trim(v.lines[0]).len() == 0 ==> plan_of(v) is Refuse,
{
}

/// What is typed goes to the end of the line that is being edited, and backspace takes it back;
/// the other lines stay.
pub proof fn law_typing_goes_to_the_line(v: AppView, c: char, k: int)
    requires
        v.step is None && !v.help && v.confirm is None && v.picker is None && v.form is None,
        v.prompt is Some,
        0 <= (v.prompt->0).cursor < (v.prompt->0).lines.len(),
        0 <= k < (v.prompt->0).lines.len(),
    ensures
        ({
            let p = v.prompt->0;
            let q = after_key(v, plain_key(c)).0.prompt->0;
            &&& after_key(v, plain_key(c)).0.prompt is Some
            &&& after_key(v, plain_key(c)).1 is Nothing
            &&& q.lines.len() == p.lines.len()
            &&& k != p.cursor ==> q.lines[k] == p.lines[k]
            &&& q.lines[p.cursor] == p.lines[p.cursor].push(c)
            &&& q.cursor == p.cursor && q.action == p.action && q.torrent == p.torrent
        }),
{
}

/// In a prompt that takes several lines shift and enter open a line below; up and down go from
/// line to line.
pub proof fn law_lines_are_added_below(v: AppView)
    requires
        v.step is None && !v.help && v.confirm is None && v.picker is None && v.form is None,
        v.prompt is Some,
        (v.prompt->0).multiline,
        0 <= (v.prompt->0).cursor < (v.prompt->0).lines.len(),
    ensures
        ({
            let p = v.prompt->0;
            let enter = Key {
                code: Code::Enter,
                control: false,
                alt: false,
                shift: true,
                other: false,
            };
            let (below, out) = after_key(v, enter);
            let q = below.prompt->0;
            &&& below.prompt is Some && out is Nothing
            &&& q.cursor == p.cursor + 1 && q.lines.len() == p.lines.len() + 1
            &&& q.lines[q.cursor].len() == 0 && q.lines[p.cursor] == p.lines[p.cursor]
            &&& (after_key(below, bare_key(Code::Up)).0.prompt->0).cursor == p.cursor
            &&& after_key(below, bare_key(Code::Backspace)).0.prompt == Some(p)
        }),
{
    let p = v.prompt->0;
    let lines = p.lines.insert(p.cursor + 1, Seq::empty());
    assert(lines.remove(p.cursor + 1) =~= p.lines);
}

// ----- trackers -----

/// Among the trackers the keys add one to the selected torrent and remove the selected one.
pub proof fn law_trackers_are_added_and_removed(v: AppView, i: usize, row: usize, c: char)
    requires
        on_main(v),
        v.main.focus == Pane::Detail,
        v.main.tab == DetailTab::Trackers,
        selected_torrent(v.main) == Some(i),
        v.main.files.detail is Some,
        v.main.trackers.selected == Some(row),
        row < (v.main.files.detail->0).trackers@.len(),
        !is_space(c),
    ensures
        ({
            let (asked, first) = after_key(v, plain_key('a'));
            let (typed, second) = after_key(asked, plain_key(c));
            let url = (v.main.files.detail->0).trackers@[row as int].url@;
            &&& first is Nothing && second is Nothing
            &&& after_key(typed, bare_key(Code::Enter)).1 == EffectView::Send(
                RequestView::AddTracker { index: i, url: seq![c], tier: 0 },
                TopicView::Prompt,
            )
            &&& after_key(v, plain_key('d')).1 == EffectView::Send(
                RequestView::RemoveTracker { index: i, url },
                TopicView::Main(PurposeView::RemoveTracker(url)),
            )
            &&& after_key(v, bare_key(Code::Delete)).1 == after_key(v, plain_key('d')).1
        }),
{
    let s = Seq::<char>::empty().push(c);
    assert(s =~= seq![c]);
    assert(trim_front(s) == s);
    assert(trim_back(s) == s);
}

// ----- panes -----

/// The tab key goes through the panes that are on screen, from left to right and round.
pub proof fn law_tab_goes_round(v: AppView)
    requires
        on_main(v),
    ensures
        ({
            let m = v.main;
            let focus = after_key(v, bare_key(Code::Tab)).0.main.focus;
            &&& m.focus == Pane::Sidebar && m.show_sidebar ==> focus == Pane::List
            &&& m.focus == Pane::List && m.show_detail ==> focus == Pane::Detail
            &&& m.focus == Pane::List && !m.show_detail && m.show_sidebar ==> focus == Pane::Sidebar
            &&& m.focus == Pane::List && !m.show_detail && !m.show_sidebar ==> focus == Pane::List
            &&& m.focus == Pane::Detail && m.show_detail && m.show_sidebar ==> focus
                == Pane::Sidebar
            &&& m.focus == Pane::Detail && m.show_detail && !m.show_sidebar ==> focus == Pane::List
            &&& after_key(v, bare_key(Code::Tab)).0 == (AppView {
                main: MainView { focus, ..m },
                ..v
            })
        }),
{
    let m = v.main;
    let panes = visible_panes(m);
    reveal_with_fuel(pane_place, 4);
    let key = bare_key(Code::Tab);
    assert(crate::tui::main_view::after_pane_key(m, key) == Some(focus_cycled(m)));
    assert(after_key(v, key).0 == (AppView { main: focus_cycled(m), ..v }));
    let place = pane_place(panes, m.focus, 0);
    if m.show_sidebar && m.show_detail {
        assert(panes =~= seq![Pane::Sidebar, Pane::List, Pane::Detail]);
        assert(panes[0] == Pane::Sidebar && panes[1] == Pane::List && panes[2] == Pane::Detail);
        assert(pane_place(panes, Pane::Sidebar, 0) == 0);
        assert(pane_place(panes, Pane::List, 0) == 1);
        assert(pane_place(panes, Pane::Detail, 0) == 2);
        assert(0int + 1 < 3 && (0int + 1) % 3 == 1 && (1int + 1) % 3 == 2 && (2int + 1) % 3 == 0);
        assert(focus_cycled(m).focus == panes[(place + 1) % 3]);
    } else if m.show_sidebar {
        assert(panes =~= seq![Pane::Sidebar, Pane::List]);
        assert(panes[0] == Pane::Sidebar && panes[1] == Pane::List);
        assert(pane_place(panes, Pane::Sidebar, 0) == 0);
        assert(pane_place(panes, Pane::List, 0) == 1);
        assert(focus_cycled(m).focus == panes[(place + 1) % 2]);
    } else if m.show_detail {
        assert(panes =~= seq![Pane::List, Pane::Detail]);
        assert(panes[0] == Pane::List && panes[1] == Pane::Detail);
        assert(pane_place(panes, Pane::List, 0) == 0);
        assert(pane_place(panes, Pane::Detail, 0) == 1);
        assert(focus_cycled(m).focus == panes[(place + 1) % 2]);
    } else {
        assert(panes =~= seq![Pane::List]);
        assert(pane_place(panes, Pane::List, 0) == 0);
        assert(focus_cycled(m).focus == panes[(place + 1) % 1]);
    }
}

/// The sidebar and the detail are shown and hidden in turn, and the focus leaves what is hidden.
pub proof fn law_panes_are_shown_and_hidden(v: AppView)
    requires
        on_main(v),
    ensures
        ({
            let side = after_key(v, plain_key('q')).0.main;
            let low = after_key(v, plain_key('e')).0.main;
            &&& side.show_sidebar == !v.main.show_sidebar
            &&& side.show_detail == v.main.show_detail
            &&& !side.show_sidebar ==> side.focus != Pane::Sidebar || v.main.focus != Pane::Sidebar
            &&& v.main.focus != Pane::Sidebar ==> side.focus == v.main.focus
            &&& v.main.focus == Pane::Sidebar && v.main.show_sidebar ==> side.focus == Pane::List
            &&& low.show_detail == !v.main.show_detail
            &&& low.show_sidebar == v.main.show_sidebar
            &&& v.main.focus != Pane::Detail ==> low.focus == v.main.focus
            &&& v.main.focus == Pane::Detail && v.main.show_detail ==> low.focus == Pane::List
            &&& low.show_detail ==> low.detail_due
            &&& after_key(after_key(v, plain_key('q')).0, plain_key('q')).0.main.show_sidebar
                == v.main.show_sidebar
            &&& after_key(after_key(v, plain_key('e')).0, plain_key('e')).0.main.show_detail
                == v.main.show_detail
        }),
{
}

/// The tabs of the detail lie in a round: trackers, peers, content.
pub proof fn law_brackets_go_through_the_tabs(v: AppView)
    requires
        on_main(v),
    ensures
        ({
            let right = after_key(v, plain_key(']')).0;
            let left = after_key(v, plain_key('[')).0;
            &&& v.main.tab == DetailTab::Trackers ==> right.main.tab == DetailTab::Peers
            &&& v.main.tab == DetailTab::Peers ==> right.main.tab == DetailTab::Content
            &&& v.main.tab == DetailTab::Content ==> right.main.tab == DetailTab::Trackers
            &&& after_key(right, plain_key('[')).0 == v
            &&& after_key(left, plain_key(']')).0 == v
        }),
{
}

/// Up and down move by one row and the page keys by ten, within the rows that there are, in the
/// pane that has the focus.
pub proof fn law_moves_stay_in_the_list(v: AppView, row: usize)
    requires
        on_main(v),
        v.main.focus == Pane::List,
        v.main.list.selected == Some(row),
        row < shown(v.main.filters, v.main.torrents).len() <= usize::MAX,
    ensures
        ({
            let n = shown(v.main.filters, v.main.torrents).len();
            let at = |key: Key| after_key(v, key).0.main.list.selected->0 as int;
            &&& at(bare_key(Code::Down)) == if row + 1 < n { row + 1 } else { row as int }
            &&& at(plain_key('s')) == at(bare_key(Code::Down))
            &&& at(bare_key(Code::Up)) == if row > 0 { row - 1 } else { 0 }
            &&& at(plain_key('w')) == at(bare_key(Code::Up))
            &&& at(bare_key(Code::PageDown)) == if row + 10 < n { row + 10 } else { n - 1 }
            &&& at(bare_key(Code::PageUp)) == if row >= 10 { row - 10 } else { 0 }
            &&& after_key(v, bare_key(Code::Down)).1 is Nothing
            &&& after_key(v, bare_key(Code::Down)).0.main.torrents == v.main.torrents
            &&& after_key(v, bare_key(Code::Down)).0.main.filters == v.main.filters
        }),
{
}

/// A selection that is moved in a list lands on the row that lies so far away, or on the nearest
/// that there is; one that is kept stays where it can.
pub proof fn law_rows_are_moved_by(row: usize, length: int, delta: int)
    requires
        0 < length <= usize::MAX,
        row < length,
    ensures
        0 <= row + delta < length ==> moved(Some(row), length, delta) == Some(
            (row + delta) as usize,
        ),
        row + delta < 0 ==> moved(Some(row), length, delta) == Some(0usize),
        row + delta >= length ==> moved(Some(row), length, delta) == Some((length - 1) as usize),
        kept(Some(row), length) == Some(row),
        kept(Some(row), row as int) == (if row == 0 {
            None
        } else {
            Some((row - 1) as usize)
        }),
{
}

// ----- files -----

/// The files of a folder are those that lie in it.
proof fn lemma_inside(files: Seq<crate::ipc::FileInfo>, folder: Seq<char>, n: int, i: usize)
    requires
        0 <= n <= files.len() <= usize::MAX,
    ensures
        inside(files, folder, n).contains(i) <==> i < n && lies_in(files[i as int].path@, folder),
    decreases n,
{
    if n > 0 {
        lemma_inside(files, folder, n - 1, i);
        let before = inside(files, folder, n - 1);
        let all = inside(files, folder, n);
        if before.contains(i) {
            assert(all[before.index_of(i)] == i);
        }
        if lies_in(files[n - 1].path@, folder) {
            assert(all[before.len() as int] == (n - 1) as usize);
            if all.contains(i) {
                let k = all.index_of(i);
                if k < before.len() {
                    assert(before[k] == i);
                }
            }
        }
    }
}

/// The digits give the selected file a priority, skip, low, normal, high or highest, and a
/// selected folder gives it to every file that lies in it and to no other.
pub proof fn law_digits_give_priorities(v: AppView, index: usize, file: usize)
    requires
        on_main(v),
        v.main.focus == Pane::Detail,
        v.main.tab == DetailTab::Content,
        selected_torrent(v.main) == Some(index),
        selected_of(v.main.files) is Some,
        files_of(v.main.files.detail).len() <= usize::MAX,
    ensures
        ({
            let row = selected_of(v.main.files)->0;
            let files = files_of(v.main.files.detail);
            let one = |digit: char, priority: u8|
                after_key(v, plain_key(digit)).1 matches EffectView::Send(
                    RequestView::SetFilePrioritiesBatch { index: t, priorities },
                    _,
                ) && t == index && priorities == seq![(file, priority)];
            let all = |digit: char, priority: u8|
                after_key(v, plain_key(digit)).1 matches EffectView::Send(
                    RequestView::SetFilePrioritiesBatch { index: t, priorities },
                    _,
                ) && t == index && priorities.contains((file, priority));
            &&& !row.is_folder && row.file_index == Some(file) ==> one('0', 0) && one('1', 1)
                && one('2', 4) && one('3', 6) && one('4', 7)
            &&& row.is_folder && file < files.len() && lies_in(files[file as int].path@, row.path)
                ==> all('0', 0) && all('1', 1) && all('2', 4) && all('3', 6) && all('4', 7)
            &&& row.is_folder && !(file < files.len() && lies_in(
                files[file as int].path@,
                row.path,
            )) ==> !all('0', 0) && !all('2', 4) && !all('4', 7)
        }),
{
    let row = selected_of(v.main.files)->0;
    let files = files_of(v.main.files.detail);
    let targets = target_files(v.main.files);
    if row.is_folder {
        lemma_inside(files, row.path, files.len() as int, file);
        assert forall|p: u8| targets.contains(file) <==> #[trigger]
            crate::tui::priority::with_priority(targets, p).contains((file, p)) by {
            let list = crate::tui::priority::with_priority(targets, p);
            if targets.contains(file) {
                assert(list[targets.index_of(file)] == (file, p));
            }
            if list.contains((file, p)) {
                let k = list.index_of((file, p));
                assert(targets[k] == file);
            }
        }
        assert(targets == inside(files, row.path, files.len() as int));
    } else if row.file_index == Some(file) {
        assert forall|p: u8| #[trigger] crate::tui::priority::with_priority(targets, p) == seq![
            (file, p),
        ] by {
            assert(crate::tui::priority::with_priority(targets, p) =~= seq![(file, p)]);
        }
    }
}

/// The selected folder is collapsed and expanded, and no other is.
pub proof fn law_folders_are_folded(v: AppView, path: Seq<char>)
    requires
        on_main(v),
        v.main.focus == Pane::Detail,
        v.main.tab == DetailTab::Content,
        v.main.files.filter.len() == 0,
        selected_of(v.main.files) is Some,
        (selected_of(v.main.files)->0).is_folder,
    ensures
        ({
            let folder = (selected_of(v.main.files)->0).path;
            let shut = after_key(v, plain_key('a')).0.main.files.collapsed;
            let open = after_key(v, plain_key('d')).0.main.files.collapsed;
            &&& shut.contains(folder) && !open.contains(folder)
            &&& path != folder ==> shut.contains(path) == v.main.files.collapsed.contains(path)
            &&& path != folder ==> open.contains(path) == v.main.files.collapsed.contains(path)
            &&& after_key(v, bare_key(Code::Left)).0.main.files.collapsed == shut
            &&& after_key(v, bare_key(Code::Right)).0.main.files.collapsed == open
        }),
{
}

/// A file is renamed by editing its path, a folder by editing its own.
pub proof fn law_files_are_renamed_by_their_paths(v: AppView, index: usize, c: char)
    requires
        on_main(v),
        v.main.focus == Pane::Detail,
        v.main.tab == DetailTab::Content,
        selected_torrent(v.main) == Some(index),
        selected_of(v.main.files) is Some,
    ensures
        ({
            let row = selected_of(v.main.files)->0;
            let files = files_of(v.main.files.detail);
            let (asked, first) = after_key(v, bare_key(Code::F(2)));
            let (typed, second) = after_key(asked, plain_key(c));
            let sent = after_key(typed, bare_key(Code::Enter)).1;
            &&& row.is_folder ==> sent == EffectView::Send(
                RequestView::RenameFolder {
                    index,
                    old_prefix: row.path,
                    new_prefix: row.path.push(c),
                },
                TopicView::Prompt,
            )
            &&& !row.is_folder ==> (row.file_index matches Some(i) ==> i < files.len() ==> sent
                == EffectView::Send(
                RequestView::RenameFile {
                    index,
                    file_index: i,
                    new_name: files[i as int].path@.push(c),
                },
                TopicView::Prompt,
            ))
        }),
{
}

// ----- searching -----

/// What is typed behind the slash narrows the list by name, or the files where they have the
/// focus, at once and to just that text.
pub proof fn law_searching_narrows(v: AppView, c: char)
    requires
        on_main(v),
    ensures
        ({
            let opened = after_key(v, plain_key('/')).0;
            let typed = after_key(opened, plain_key(c)).0;
            let content = v.main.focus == Pane::Detail && v.main.tab == DetailTab::Content;
            &&& v.main.focus == Pane::Sidebar ==> opened == v
            &&& v.main.focus != Pane::Sidebar ==> opened.input is Some
            &&& v.main.focus != Pane::Sidebar && !content ==> typed.main.filters.name
                == v.main.filters.name.push(c) && typed.main.files == v.main.files
            &&& content ==> typed.main.files.filter == v.main.files.filter.push(c)
                && typed.main.filters == v.main.filters
            &&& v.main.focus != Pane::Sidebar ==> after_key(
                typed,
                bare_key(Code::Enter),
            ).0.input is None
        }),
{
}

// ----- pages -----

/// The keys that open a page or a box open just that.
pub proof fn law_keys_open_pages(v: AppView)
    requires
        on_main(v),
    ensures
        after_key(v, plain_key('u')).0.mode is Feeds,
        after_key(v, plain_key('u')).1 is Nothing,
        after_key(v, plain_key(',')).1 is OpenSettings,
        after_key(v, plain_key('n')).1 is OpenSources,
        after_key(v, shift_key('C')).0.picker == Some(0int),
        after_key(v, plain_key('?')).0.help,
        after_key(after_key(v, plain_key('?')).0, plain_key('p')).0 == v,
        after_key(after_key(v, plain_key('?')).0, plain_key('p')).1 is Nothing,
{
}

/// On the page of feeds the keys remove the selected feed, poll all of them, or ask for another;
/// esc leads back.
pub proof fn law_feed_keys_ask(v: AppView, page: FeedsView, row: usize, c: char)
    requires
        v.mode == ModeView::Feeds(page),
        nothing_over(v),
        page.selection.selected == Some(row),
        !is_space(c),
    ensures
        ({
            let (asked, first) = after_key(v, plain_key('n'));
            let (typed, second) = after_key(asked, plain_key(c));
            &&& after_key(v, plain_key('x')).1 == EffectView::Send(
                RequestView::RemoveFeed { index: row },
                TopicView::FeedRemoval(row),
            )
            &&& after_key(v, bare_key(Code::Delete)).1 == after_key(v, plain_key('x')).1
            &&& after_key(v, plain_key('p')).1 == EffectView::Send(
                RequestView::PollFeeds,
                TopicView::FeedPoll,
            )
            &&& first is Nothing && second is Nothing
            &&& after_key(typed, bare_key(Code::Enter)).1 == EffectView::Send(
                RequestView::AddFeed {
                    url: seq![c],
                    filter: Seq::empty(),
                    category: None,
                    save_path: None,
                    poll_interval_minutes: 30,
                    start_paused: false,
                },
                TopicView::Prompt,
            )
            &&& after_key(v, bare_key(Code::Esc)).0.mode is Main
        }),
{
    let s = Seq::<char>::empty().push(c);
    assert(s =~= seq![c]);
    assert(trim_front(s) == s);
    assert(trim_back(s) == s);
}

/// The row of a feed tells its place, how often it is polled, its filter and its address; the
/// line below tells the category, the folder and whether its torrents start paused.
pub proof fn law_feeds_are_shown(f: crate::ipc::FeedInfo)
    ensures
        feed_cells(f).len() == 4,
        feed_cells(f)[0] == decimal(f.index as int),
        feed_cells(f)[1] == decimal(f.poll_interval_minutes as int) + "min"@,
        f.filter@.len() > 0 ==> feed_cells(f)[2] == f.filter@,
        f.filter@.len() == 0 ==> feed_cells(f)[2] == "(any)"@,
        feed_cells(f)[3] == f.url@,
        f.category matches Some(c) ==> feed_parts(f).contains("category: "@ + c@),
        f.save_path matches Some(p) ==> feed_parts(f).contains("save path: "@ + p@),
        f.start_paused ==> feed_parts(f).last() == "start paused"@,
        f.category is None && f.save_path is None && !f.start_paused ==> feed_detail(f).len() == 0,
{
    let parts = feed_parts(f);
    if let Some(c) = f.category {
        assert(parts[0] == "category: "@ + c@);
        if let Some(p) = f.save_path {
            assert(parts[1] == "save path: "@ + p@);
        }
    } else if let Some(p) = f.save_path {
        assert(parts[0] == "save path: "@ + p@);
    }
}

// ----- torrents that were just added -----

/// In the step after adding, enter goes on to the next torrent with nothing carried over, and
/// ends the step after the last.
pub proof fn law_step_goes_on(v: AppView, s: StepView)
    requires
        v.step == Some(s),
        s.rename is None,
        !s.filter_active,
        0 <= s.current < s.indices.len(),
    ensures
        ({
            let (after, out) = after_key(v, bare_key(Code::Enter));
            &&& out is Nothing
            &&& s.current + 1 < s.indices.len() ==> after.step is Some && (after.step->0).current
                == s.current + 1 && (after.step->0).poll_now && (
            after.step->0).files.detail is None && (after.step->0).files.filter.len() == 0
            &&& s.current + 1 == s.indices.len() ==> after.step is None && after.main.list_due
                && after.main.detail_due
        }),
{
}

/// In the step after adding, a digit gives the selected file of the current torrent its priority.
pub proof fn law_step_gives_priorities(v: AppView, s: StepView, file: usize)
    requires
        v.step == Some(s),
        s.rename is None,
        !s.filter_active,
        0 <= s.current < s.indices.len(),
        selected_of(s.files) is Some,
        !(selected_of(s.files)->0).is_folder,
        (selected_of(s.files)->0).file_index == Some(file),
    ensures
        ({
            let sends = |digit: char, priority: u8|
                after_key(v, plain_key(digit)).1 matches EffectView::Send(
                    RequestView::SetFilePrioritiesBatch { index, priorities },
                    TopicView::Step,
                ) && index == s.indices[s.current] && priorities == seq![(file, priority)];
            &&& sends('0', 0) && sends('1', 1) && sends('2', 4) && sends('3', 6) && sends('4', 7)
            &&& after_key(v, plain_key('5')).1 is Nothing
        }),
{
    let targets = target_files(s.files);
    assert forall|p: u8| #[trigger] crate::tui::priority::with_priority(targets, p) == seq![
        (file, p),
    ] by {
        assert(crate::tui::priority::with_priority(targets, p) =~= seq![(file, p)]);
    }
}

/// In the step after adding, a new name is sent for what it was opened for: the torrent, the
/// file or the folder.
pub proof fn law_step_renames(v: AppView, s: StepView, name: Seq<char>)
    requires
        v.step == Some(s),
        s.rename == Some(name),
        s.target is Some,
        0 <= s.current < s.indices.len(),
    ensures
        ({
            let index = s.indices[s.current];
            let (after, out) = after_key(v, bare_key(Code::Enter));
            &&& s.target->0 is Torrent ==> out == EffectView::Send(
                RequestView::RenameTorrent { index, new_name: name },
                TopicView::Step,
            )
            &&& s.target->0 matches TargetView::File(f) ==> out == EffectView::Send(
                RequestView::RenameFile { index, file_index: f, new_name: name },
                TopicView::Step,
            )
            &&& s.target->0 matches TargetView::Folder(p) ==> out == EffectView::Send(
                RequestView::RenameFolder { index, old_prefix: p, new_prefix: name },
                TopicView::Step,
            )
            &&& after.step is Some && (after.step->0).rename is None && (after.step->0).poll_now
            &&& after_key(v, bare_key(Code::Esc)).1 is Nothing
            &&& (after_key(v, bare_key(Code::Esc)).0.step->0).rename is None
        }),
{
}

} // verus!
