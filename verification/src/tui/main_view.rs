//! The main view: the sidebar, the list of torrents, and the detail of the selected one.

use crate::ipc::{Request, RequestView, StatsInfo, TorrentInfo};
use crate::text::{opt_text, texts};
use crate::tui::files::{files_of, folded, selected_of, stepped, target_files, FilePane, FilesView};
use crate::tui::filters::{
    after_choice, item_views, shown, sidebar_items, sidebar_of, Filters, FiltersView, StatusFilter,
};
use crate::tui::keys::{Code, Key};
use crate::tui::priority::{give_priority, key_priority, priority_of_key, with_priority};
use crate::tui::prompt::{
    file_prompt, folder_prompt, limits_prompt, move_prompt, rename_prompt, tracker_prompt, Prompt,
    PromptView,
};
use crate::tui::selection::{moved, Selection};
use vstd::prelude::*;

verus! {

/// A pane of the main view.
#[derive(Clone, Copy, Debug, PartialEq, Eq, Structural)]
pub enum Pane {
    Sidebar,
    List,
    Detail,
}

/// A tab of the detail pane.
#[derive(Clone, Copy, Debug, PartialEq, Eq, Structural)]
pub enum DetailTab {
    Trackers,
    Peers,
    Content,
}

impl DetailTab {
    /// The label of the tab.
    pub open spec fn label_text(self) -> Seq<char> {
        match self {
            DetailTab::Trackers => "trackers"@,
            DetailTab::Peers => "peers"@,
            DetailTab::Content => "content"@,
        }
    }

    /// The label of the tab.
    pub fn label(&self) -> (r: &'static str)
        ensures
            r@ == self.label_text(),
    {
        match self {
            DetailTab::Trackers => "trackers",
            DetailTab::Peers => "peers",
            DetailTab::Content => "content",
        }
    }

    /// The tab to the right; behind the last comes the first.
    pub open spec fn right(self) -> DetailTab {
        match self {
            DetailTab::Trackers => DetailTab::Peers,
            DetailTab::Peers => DetailTab::Content,
            DetailTab::Content => DetailTab::Trackers,
        }
    }

    /// The tab to the left; before the first comes the last.
    pub open spec fn left(self) -> DetailTab {
        match self {
            DetailTab::Trackers => DetailTab::Content,
            DetailTab::Peers => DetailTab::Trackers,
            DetailTab::Content => DetailTab::Peers,
        }
    }
}

/// What a line of text is typed for.
#[derive(Clone, Copy, Debug, PartialEq, Eq, Structural)]
pub enum InputPurpose {
    /// to narrow the list by name
    ListFilter,
    /// to narrow the files
    ContentFilter,
}

/// A line that is being typed in the main view.
#[derive(Clone, Debug, PartialEq, Eq)]
pub struct TextInput {
    pub purpose: InputPurpose,
    pub buffer: String,
}

/// A line that is being typed, as plain values.
pub struct InputView {
    pub purpose: InputPurpose,
    pub buffer: Seq<char>,
}

impl View for TextInput {
    type V = InputView;

    open spec fn view(&self) -> InputView {
        InputView { purpose: self.purpose, buffer: self.buffer@ }
    }
}

/// The question whether a torrent is to be deleted.
#[derive(Clone, Debug, PartialEq, Eq)]
pub struct ConfirmDelete {
    pub torrent_index: usize,
    pub torrent_name: String,
    /// whether its files are deleted too
    pub delete_files: bool,
}

/// The question, as plain values.
pub struct ConfirmView {
    pub torrent: usize,
    pub name: Seq<char>,
    pub delete_files: bool,
}

impl View for ConfirmDelete {
    type V = ConfirmView;

    open spec fn view(&self) -> ConfirmView {
        ConfirmView {
            torrent: self.torrent_index,
            name: self.torrent_name@,
            delete_files: self.delete_files,
        }
    }
}

/// What the daemon was asked for, which decides what its answer does.
#[derive(Clone, Debug, PartialEq, Eq)]
pub enum Purpose {
    Pause,
    Recheck { index: usize },
    Reannounce { index: usize },
    Magnet,
    RemoveTracker { url: String },
    Sequential { index: usize },
    Delete,
    Priority { priority: u8, count: usize },
}

/// What the daemon was asked for, as plain values.
pub enum PurposeView {
    Pause,
    Recheck(usize),
    Reannounce(usize),
    Magnet,
    RemoveTracker(Seq<char>),
    Sequential(usize),
    Delete,
    Priority(u8, usize),
}

impl View for Purpose {
    type V = PurposeView;

    open spec fn view(&self) -> PurposeView {
        match *self {
            Purpose::Pause => PurposeView::Pause,
            Purpose::Recheck { index } => PurposeView::Recheck(index),
            Purpose::Reannounce { index } => PurposeView::Reannounce(index),
            Purpose::Magnet => PurposeView::Magnet,
            Purpose::RemoveTracker { url } => PurposeView::RemoveTracker(url@),
            Purpose::Sequential { index } => PurposeView::Sequential(index),
            Purpose::Delete => PurposeView::Delete,
            Purpose::Priority { priority, count } => PurposeView::Priority(priority, count),
        }
    }
}

/// The main view.
#[derive(Clone, Debug, PartialEq, Eq)]
pub struct MainState {
    pub torrents: Vec<TorrentInfo>,
    pub filters: Filters,
    pub list: Selection,
    /// the categories, in order
    pub sidebar_categories: Vec<String>,
    pub sidebar: Selection,
    pub files: FilePane,
    pub peers: Selection,
    pub trackers: Selection,
    pub show_sidebar: bool,
    pub show_detail: bool,
    pub focus: Pane,
    pub detail_tab: DetailTab,
    pub stats: Option<StatsInfo>,
    /// what the status line says
    pub error: Option<String>,
    pub daemon_unreachable: bool,
    /// whether the list is to be asked for at once
    pub list_due: bool,
    /// whether the detail is to be asked for at once
    pub detail_due: bool,
}

/// The main view as plain values.
pub struct MainView {
    pub torrents: Seq<TorrentInfo>,
    pub filters: FiltersView,
    pub list: Selection,
    pub categories: Seq<Seq<char>>,
    pub sidebar: Selection,
    pub files: FilesView,
    pub peers: Selection,
    pub trackers: Selection,
    pub show_sidebar: bool,
    pub show_detail: bool,
    pub focus: Pane,
    pub tab: DetailTab,
    pub stats: Option<StatsInfo>,
    pub error: Option<Seq<char>>,
    pub unreachable: bool,
    pub list_due: bool,
    pub detail_due: bool,
}

impl View for MainState {
    type V = MainView;

    open spec fn view(&self) -> MainView {
        MainView {
            torrents: self.torrents@,
            filters: self.filters@,
            list: self.list,
            categories: texts(self.sidebar_categories@),
            sidebar: self.sidebar,
            files: self.files@,
            peers: self.peers,
            trackers: self.trackers,
            show_sidebar: self.show_sidebar,
            show_detail: self.show_detail,
            focus: self.focus,
            tab: self.detail_tab,
            stats: self.stats,
            error: opt_text(self.error),
            unreachable: self.daemon_unreachable,
            list_due: self.list_due,
            detail_due: self.detail_due,
        }
    }
}

/// What a key in the main view leads to.
#[derive(Clone, Debug, PartialEq, Eq)]
pub enum MainOutcome {
    Stay,
    /// end the program
    Quit,
    /// read the configuration and open the settings
    Settings,
    /// open the page of feeds
    Feeds,
    /// open a prompt
    Ask(Prompt),
    /// open the prompt for sources, with what the clipboard offers
    AskSources,
    /// open the list of columns
    Columns,
    /// show the keys
    Help,
    /// ask whether to delete
    Confirm(ConfirmDelete),
    /// type a line
    Input(TextInput),
    /// ask this of the daemon
    Send(Request, Purpose),
}

/// What a key in the main view leads to, as plain values.
pub enum MainOut {
    Stay,
    Quit,
    Settings,
    Feeds,
    Ask(PromptView),
    AskSources,
    Columns,
    Help,
    Confirm(ConfirmView),
    Input(InputView),
    Send(RequestView, PurposeView),
}

impl View for MainOutcome {
    type V = MainOut;

    open spec fn view(&self) -> MainOut {
        match *self {
            MainOutcome::Stay => MainOut::Stay,
            MainOutcome::Quit => MainOut::Quit,
            MainOutcome::Settings => MainOut::Settings,
            MainOutcome::Feeds => MainOut::Feeds,
            MainOutcome::Ask(prompt) => MainOut::Ask(prompt@),
            MainOutcome::AskSources => MainOut::AskSources,
            MainOutcome::Columns => MainOut::Columns,
            MainOutcome::Help => MainOut::Help,
            MainOutcome::Confirm(confirm) => MainOut::Confirm(confirm@),
            MainOutcome::Input(input) => MainOut::Input(input@),
            MainOutcome::Send(request, purpose) => MainOut::Send(request@, purpose@),
        }
    }
}

// ----- moving about -----

/// The torrent that is selected in the list.
pub open spec fn selected_torrent(v: MainView) -> Option<usize> {
    let rows = shown(v.filters, v.torrents);
    match v.list.selected {
        Some(row) if row < rows.len() => Some(rows[row as int]),
        _ => None,
    }
}

/// The panes on screen, from left to right.
pub open spec fn visible_panes(v: MainView) -> Seq<Pane> {
    (if v.show_sidebar {
        seq![Pane::Sidebar]
    } else {
        Seq::empty()
    }) + seq![Pane::List] + (if v.show_detail {
        seq![Pane::Detail]
    } else {
        Seq::empty()
    })
}

/// The place of a pane among others; the first where it is not among them.
pub open spec fn pane_place(panes: Seq<Pane>, pane: Pane, from: int) -> int
    decreases panes.len() - from,
{
    if from < 0 || from >= panes.len() {
        0
    } else if panes[from] == pane {
        from
    } else {
        pane_place(panes, pane, from + 1)
    }
}

/// The view with the focus on the next pane that is on screen.
pub open spec fn focus_cycled(v: MainView) -> MainView {
    let panes = visible_panes(v);
    MainView {
        focus: panes[(pane_place(panes, v.focus, 0) + 1) % (panes.len() as int)],
        ..v
    }
}

/// The number of peers.
pub open spec fn peer_count(v: MainView) -> int {
    match v.files.detail {
        Some(d) => d.peers@.len() as int,
        None => 0,
    }
}

/// The number of trackers.
pub open spec fn tracker_count(v: MainView) -> int {
    match v.files.detail {
        Some(d) => d.trackers@.len() as int,
        None => 0,
    }
}

/// The view after moving in the list of torrents.
pub open spec fn list_moved(v: MainView, delta: int) -> MainView {
    MainView {
        list: v.list.with(
            moved(v.list.selected, shown(v.filters, v.torrents).len() as int, delta),
        ),
        ..v
    }
}

/// The view after moving in the sidebar.
pub open spec fn sidebar_moved(v: MainView, delta: int) -> MainView {
    MainView {
        sidebar: v.sidebar.with(
            moved(v.sidebar.selected, sidebar_of(v.categories, v.torrents).len() as int, delta),
        ),
        ..v
    }
}

/// The view after moving in the detail pane.
pub open spec fn detail_moved(v: MainView, delta: int) -> MainView {
    match v.tab {
        DetailTab::Content => MainView { files: stepped(v.files, delta), ..v },
        DetailTab::Peers => MainView {
            peers: v.peers.with(moved(v.peers.selected, peer_count(v), delta)),
            ..v
        },
        DetailTab::Trackers => MainView {
            trackers: v.trackers.with(moved(v.trackers.selected, tracker_count(v), delta)),
            ..v
        },
    }
}

/// The view after moving in the pane that has the focus.
pub open spec fn focus_moved(v: MainView, delta: int) -> MainView {
    match v.focus {
        Pane::List => list_moved(v, delta),
        Pane::Sidebar => sidebar_moved(v, delta),
        Pane::Detail => detail_moved(v, delta),
    }
}

/// The view after the selected row of the sidebar was applied.
pub open spec fn sidebar_applied(v: MainView) -> MainView {
    let rows = sidebar_of(v.categories, v.torrents);
    match v.sidebar.selected {
        Some(i) if i < rows.len() => {
            let (filters, changed) = after_choice(v.filters, rows[i as int]);
            MainView {
                filters,
                list: if changed {
                    v.list.with(Some(0))
                } else {
                    v.list
                },
                ..v
            }
        },
        _ => v,
    }
}

/// The content tab has the focus.
pub open spec fn in_content(v: MainView) -> bool {
    v.focus == Pane::Detail && v.tab == DetailTab::Content
}

/// The trackers have the focus.
pub open spec fn in_trackers(v: MainView) -> bool {
    v.focus == Pane::Detail && v.tab == DetailTab::Trackers
}

/// The view with something on the status line.
pub open spec fn told(v: MainView, text: Seq<char>) -> MainView {
    MainView { error: Some(text), ..v }
}

/// The view with a note on the status line, where there is one.
pub open spec fn noted(v: MainView, note: Option<Seq<char>>) -> MainView {
    match note {
        Some(text) => told(v, text),
        None => v,
    }
}

/// The view with everything to be asked for at once.
pub open spec fn all_due(v: MainView) -> MainView {
    MainView { list_due: true, detail_due: true, ..v }
}

/// The view after showing or hiding the sidebar.
pub open spec fn sidebar_toggled(v: MainView) -> MainView {
    MainView {
        show_sidebar: !v.show_sidebar,
        focus: if v.show_sidebar && v.focus == Pane::Sidebar {
            Pane::List
        } else {
            v.focus
        },
        ..v
    }
}

/// The view after showing or hiding the detail.
pub open spec fn detail_toggled(v: MainView) -> MainView {
    MainView {
        show_detail: !v.show_detail,
        focus: if v.show_detail && v.focus == Pane::Detail {
            Pane::List
        } else {
            v.focus
        },
        detail_due: v.detail_due || !v.show_detail,
        ..v
    }
}

// ----- actions on the selected torrent -----

/// What needs a torrent: with none selected the status line says so.
pub open spec fn without_torrent(v: MainView) -> (MainView, MainOut) {
    (told(v, "no torrent selected"@), MainOut::Stay)
}

/// Asks for the name of the selected torrent.
pub open spec fn rename_asked(v: MainView) -> (MainView, MainOut) {
    match selected_torrent(v) {
        None => without_torrent(v),
        Some(i) => (v, MainOut::Ask(rename_prompt(i, v.torrents[i as int].name@))),
    }
}

/// Asks for the folder of the selected torrent.
pub open spec fn move_asked(v: MainView) -> (MainView, MainOut) {
    match selected_torrent(v) {
        None => without_torrent(v),
        Some(i) => (v, MainOut::Ask(move_prompt(i, v.torrents[i as int].save_path@))),
    }
}

/// Asks for the limits of the selected torrent.
pub open spec fn limits_asked(v: MainView) -> (MainView, MainOut) {
    match selected_torrent(v) {
        None => without_torrent(v),
        Some(i) => {
            let t = v.torrents[i as int];
            (v, MainOut::Ask(limits_prompt(i, t.download_limit as int, t.upload_limit as int)))
        },
    }
}

/// Asks for a tracker of the selected torrent.
pub open spec fn tracker_asked(v: MainView) -> (MainView, MainOut) {
    match selected_torrent(v) {
        None => without_torrent(v),
        Some(i) => (v, MainOut::Ask(tracker_prompt(i))),
    }
}

/// Asks for the path of the selected file or folder.
pub open spec fn content_rename_asked(v: MainView) -> (MainView, MainOut) {
    match selected_torrent(v) {
        None => without_torrent(v),
        Some(index) => if v.files.detail is None {
            (told(v, "file list not loaded"@), MainOut::Stay)
        } else {
            match selected_of(v.files) {
                None => (told(v, "no file selected"@), MainOut::Stay),
                Some(row) => if row.is_folder {
                    (v, MainOut::Ask(folder_prompt(index, row.path)))
                } else {
                    let files = files_of(v.files.detail);
                    match row.file_index {
                        Some(i) if i < files.len() => (
                            v,
                            MainOut::Ask(file_prompt(index, i, row.label, files[i as int].path@)),
                        ),
                        _ => (v, MainOut::Stay),
                    }
                },
            }
        },
    }
}

/// Removes the selected tracker.
pub open spec fn tracker_removal(v: MainView) -> (MainView, MainOut) {
    match selected_torrent(v) {
        None => without_torrent(v),
        Some(index) => match v.files.detail {
            None => (told(v, "tracker list not loaded"@), MainOut::Stay),
            Some(d) => match v.trackers.selected {
                None => (told(v, "no tracker selected"@), MainOut::Stay),
                Some(row) => if row < d.trackers@.len() {
                    let url = d.trackers@[row as int].url@;
                    (
                        v,
                        MainOut::Send(
                            RequestView::RemoveTracker { index, url },
                            PurposeView::RemoveTracker(url),
                        ),
                    )
                } else {
                    (told(v, "tracker index out of range"@), MainOut::Stay)
                },
            },
        },
    }
}

/// Pauses the selected torrent, or resumes it.
pub open spec fn pause_toggled(v: MainView) -> MainOut {
    match selected_torrent(v) {
        None => MainOut::Stay,
        Some(index) => MainOut::Send(
            if v.torrents[index as int].is_paused {
                RequestView::Resume { index }
            } else {
                RequestView::Pause { index }
            },
            PurposeView::Pause,
        ),
    }
}

/// Gives the selected row of the files a priority.
pub open spec fn priority_given(v: MainView, priority: u8) -> MainOut {
    let targets = target_files(v.files);
    match selected_torrent(v) {
        Some(index) if targets.len() > 0 => MainOut::Send(
            RequestView::SetFilePrioritiesBatch {
                index,
                priorities: with_priority(targets, priority),
            },
            PurposeView::Priority(priority, targets.len() as usize),
        ),
        _ => MainOut::Stay,
    }
}

/// Asks whether the selected torrent is to be deleted.
pub open spec fn delete_asked(v: MainView) -> MainOut {
    match selected_torrent(v) {
        None => MainOut::Stay,
        Some(i) => MainOut::Confirm(
            ConfirmView { torrent: i, name: v.torrents[i as int].name@, delete_files: false },
        ),
    }
}

/// What is typed to search where the focus is.
pub open spec fn search_opened(v: MainView) -> MainOut {
    if v.focus == Pane::Sidebar {
        MainOut::Stay
    } else if in_content(v) {
        MainOut::Input(
            InputView { purpose: InputPurpose::ContentFilter, buffer: v.files.filter },
        )
    } else {
        MainOut::Input(InputView { purpose: InputPurpose::ListFilter, buffer: v.filters.name })
    }
}

// ----- keys -----

/// The view after a key that moves about, or nothing where it does not.
pub open spec fn after_moving_key(v: MainView, key: Key) -> Option<MainView> {
    if key.is_down() {
        Some(focus_moved(v, 1))
    } else if key.is_up() {
        Some(focus_moved(v, -1))
    } else if key.code == Code::PageDown {
        Some(focus_moved(v, 10))
    } else if key.code == Code::PageUp {
        Some(focus_moved(v, -10))
    } else {
        None
    }
}

/// The view after a key that changes what is on screen, or nothing where it does not.
pub open spec fn after_pane_key(v: MainView, key: Key) -> Option<MainView> {
    if key.is('a') || key.code == Code::Left {
        Some(
            if in_content(v) {
                MainView { files: folded(v.files, true), ..v }
            } else {
                v
            },
        )
    } else if key.is('d') || key.code == Code::Right {
        Some(
            if in_content(v) {
                MainView { files: folded(v.files, false), ..v }
            } else {
                v
            },
        )
    } else if key.code == Code::Tab {
        Some(focus_cycled(v))
    } else if key.is('q') {
        Some(sidebar_toggled(v))
    } else if key.is('e') {
        Some(detail_toggled(v))
    } else if key.is('[') {
        Some(MainView { tab: v.tab.left(), ..v })
    } else if key.is(']') {
        Some(MainView { tab: v.tab.right(), ..v })
    } else if key.code == Code::Enter && v.focus == Pane::Sidebar {
        Some(sidebar_applied(v))
    } else {
        None
    }
}

/// The view after a key that acts on something, and what it leads to.
pub open spec fn after_action_key(v: MainView, key: Key) -> (MainView, MainOut) {
    if key.is(',') || key.is_control(',') {
        (v, MainOut::Settings)
    } else if key.is('u') {
        (v, MainOut::Feeds)
    } else if key.is('p') {
        (v, pause_toggled(v))
    } else if key.is('r') || key.code == Code::F(2) {
        if in_content(v) {
            content_rename_asked(v)
        } else {
            rename_asked(v)
        }
    } else if key.is('m') {
        move_asked(v)
    } else if key.is('n') || key.is_control('n') {
        (v, MainOut::AskSources)
    } else if key.is_shift('R') {
        match selected_torrent(v) {
            Some(index) => (
                v,
                MainOut::Send(RequestView::Recheck { index }, PurposeView::Recheck(index)),
            ),
            None => (v, MainOut::Stay),
        }
    } else if key.is_shift('T') {
        match selected_torrent(v) {
            Some(index) => (
                v,
                MainOut::Send(RequestView::Reannounce { index }, PurposeView::Reannounce(index)),
            ),
            None => (v, MainOut::Stay),
        }
    } else if key.is('g') {
        match selected_torrent(v) {
            Some(index) => (
                v,
                MainOut::Send(RequestView::Magnet { index }, PurposeView::Magnet),
            ),
            None => (v, MainOut::Stay),
        }
    } else if key.is_shift('S') {
        match selected_torrent(v) {
            Some(index) => (
                v,
                MainOut::Send(
                    RequestView::SetSequential { index, enabled: true },
                    PurposeView::Sequential(index),
                ),
            ),
            None => (v, MainOut::Stay),
        }
    } else if key.is_shift('C') {
        (v, MainOut::Columns)
    } else if key.is_shift('L') {
        limits_asked(v)
    } else if key.code == Code::Delete || key.is('x') || key.is_shift('X') {
        (v, delete_asked(v))
    } else if key.code == Code::Char('?') {
        (v, MainOut::Help)
    } else if key_priority(key) is Some && in_content(v) {
        (v, priority_given(v, key_priority(key)->0))
    } else if key.is('/') {
        (v, search_opened(v))
    } else {
        (v, MainOut::Stay)
    }
}

/// The view after a key, and what it leads to.
pub open spec fn after_main_key(v: MainView, key: Key) -> (MainView, MainOut) {
    if key.is_quit() {
        (v, MainOut::Quit)
    } else if after_moving_key(v, key) is Some {
        (after_moving_key(v, key)->0, MainOut::Stay)
    } else if in_trackers(v) && key.is('a') {
        tracker_asked(v)
    } else if in_trackers(v) && (key.is('d') || key.code == Code::Delete) {
        tracker_removal(v)
    } else if after_pane_key(v, key) is Some {
        (after_pane_key(v, key)->0, MainOut::Stay)
    } else {
        after_action_key(v, key)
    }
}

impl MainState {
    /// The list of files is consistent.
    pub open spec fn wf(&self) -> bool {
        self.files.wf()
    }

    /// The view as the program starts.
    pub fn new(show_sidebar: bool, show_detail: bool) -> (r: MainState)
        ensures
            r.wf(),
            r@.torrents == Seq::<TorrentInfo>::empty(),
            r@.filters == (FiltersView {
                status: StatusFilter::All,
                category: None,
                tag: None,
                name: Seq::empty(),
            }),
            r@.list == (Selection { selected: Some(0), offset: 0 }),
            r@.categories == Seq::<Seq<char>>::empty(),
            r@.sidebar == (Selection { selected: Some(0), offset: 0 }),
            r@.files.detail is None,
            r@.files.filter == Seq::<char>::empty(),
            r@.files.collapsed == Set::<Seq<char>>::empty(),
            r@.files.selection == (Selection { selected: None, offset: 0 }),
            r@.peers == (Selection { selected: None, offset: 0 }),
            r@.trackers == (Selection { selected: None, offset: 0 }),
            r@.show_sidebar == show_sidebar,
            r@.show_detail == show_detail,
            r@.focus == Pane::List,
            r@.tab == DetailTab::Content,
            r@.stats is None,
            r@.error is None,
            !r@.unreachable,
            r@.list_due,
            r@.detail_due,
    {
        let r = MainState {
            torrents: Vec::new(),
            filters: Filters::none(),
            list: Selection::first(),
            sidebar_categories: Vec::new(),
            sidebar: Selection::first(),
            files: FilePane::new(Selection::nothing()),
            peers: Selection::nothing(),
            trackers: Selection::nothing(),
            show_sidebar,
            show_detail,
            focus: Pane::List,
            detail_tab: DetailTab::Content,
            stats: None,
            error: None,
            daemon_unreachable: false,
            list_due: true,
            detail_due: true,
        };
        proof {
            assert(r@.torrents =~= Seq::<TorrentInfo>::empty());
            assert(r@.categories =~= Seq::<Seq<char>>::empty());
        }
        r
    }

    /// Puts something on the status line.
    pub fn tell(&mut self, text: String)
        requires
            old(self).wf(),
        ensures
            final(self).wf(),
            final(self)@ == told(old(self)@, text@),
    {
        self.error = Some(text);
    }

    /// Something was done, perhaps with a note: everything is to be asked for at once.
    pub fn take_note(&mut self, note: Option<String>)
        requires
            old(self).wf(),
        ensures
            final(self).wf(),
            final(self)@ == all_due(noted(old(self)@, opt_text(note))),
    {
        if let Some(text) = note {
            self.tell(text);
        }
        self.refresh();
    }

    /// Everything is to be asked for at once.
    pub fn refresh(&mut self)
        requires
            old(self).wf(),
        ensures
            final(self).wf(),
            final(self)@ == all_due(old(self)@),
    {
        self.list_due = true;
        self.detail_due = true;
    }

    /// The torrent that is selected in the list.
    pub fn selected_torrent_index(&self) -> (r: Option<usize>)
        ensures
            r == selected_torrent(self@),
            r matches Some(i) ==> i < self.torrents@.len(),
    {
        let rows = self.filters.filtered_indices(&self.torrents);
        match self.list.selected {
            Some(row) => if row < rows.len() {
                Some(rows[row])
            } else {
                None
            },
            None => None,
        }
    }

    /// Gives the focus to the next pane that is on screen.
    pub fn cycle_focus(&mut self)
        requires
            old(self).wf(),
        ensures
            final(self).wf(),
            final(self)@ == focus_cycled(old(self)@),
    {
        let mut panes: Vec<Pane> = Vec::new();
        if self.show_sidebar {
            panes.push(Pane::Sidebar);
        }
        panes.push(Pane::List);
        if self.show_detail {
            panes.push(Pane::Detail);
        }
        assert(panes@ =~= visible_panes(self@));
        let n: usize = panes.len();
        let mut place: usize = 0;
        let mut searching = true;
        while place < n && searching
            invariant
                place <= n,
                n == panes@.len(),
                searching ==> pane_place(panes@, self.focus, 0) == pane_place(
                    panes@,
                    self.focus,
                    place as int,
                ),
                !searching ==> place < n && pane_place(panes@, self.focus, 0) == place,
            decreases n - place + (if searching { 1int } else { 0int }),
        {
            if panes[place] == self.focus {
                searching = false;
            } else {
                place = place + 1;
            }
        }
        if searching {
            place = 0;
        }
        self.focus = panes[(place + 1) % n];
    }

    /// Moves in the list of torrents.
    pub fn move_list(&mut self, delta: isize)
        requires
            old(self).wf(),
        ensures
            final(self).wf(),
            final(self)@ == list_moved(old(self)@, delta as int),
    {
        let count: usize = self.filters.filtered_indices(&self.torrents).len();
        self.list.move_by(count, delta);
    }

    /// Moves in the sidebar.
    pub fn move_sidebar(&mut self, delta: isize)
        requires
            old(self).wf(),
        ensures
            final(self).wf(),
            final(self)@ == sidebar_moved(old(self)@, delta as int),
    {
        let items = sidebar_items(&self.sidebar_categories, &self.torrents);
        assert(item_views(items@).len() == items@.len());
        let count: usize = items.len();
        self.sidebar.move_by(count, delta);
    }

    /// Moves in the detail pane.
    pub fn move_detail(&mut self, delta: isize)
        requires
            old(self).wf(),
        ensures
            final(self).wf(),
            final(self)@ == detail_moved(old(self)@, delta as int),
    {
        match self.detail_tab {
            DetailTab::Content => self.files.move_by(delta),
            DetailTab::Peers => {
                let count: usize = match &self.files.detail {
                    Some(detail) => detail.peers.len(),
                    None => 0,
                };
                self.peers.move_by(count, delta);
            },
            DetailTab::Trackers => {
                let count: usize = match &self.files.detail {
                    Some(detail) => detail.trackers.len(),
                    None => 0,
                };
                self.trackers.move_by(count, delta);
            },
        }
    }

    /// Moves in the pane that has the focus.
    pub fn move_focused(&mut self, delta: isize)
        requires
            old(self).wf(),
        ensures
            final(self).wf(),
            final(self)@ == focus_moved(old(self)@, delta as int),
    {
        match self.focus {
            Pane::List => self.move_list(delta),
            Pane::Sidebar => self.move_sidebar(delta),
            Pane::Detail => self.move_detail(delta),
        }
    }

    /// Applies the selected row of the sidebar.
    pub fn apply_sidebar_selection(&mut self)
        requires
            old(self).wf(),
        ensures
            final(self).wf(),
            final(self)@ == sidebar_applied(old(self)@),
    {
        let i: usize = match self.sidebar.selected {
            Some(i) => i,
            None => {
                return;
            },
        };
        let items = sidebar_items(&self.sidebar_categories, &self.torrents);
        assert(item_views(items@).len() == items@.len());
        if i < items.len() {
            assert(item_views(items@)[i as int] == items@[i as int]@);
            let changed = self.filters.choose_item(&items[i]);
            if changed {
                self.list.select(Some(0));
            }
        }
    }

    /// Goes one tab to the right, or to the left.
    pub fn cycle_detail_tab(&mut self, left: bool)
        requires
            old(self).wf(),
        ensures
            final(self).wf(),
            final(self)@ == (MainView {
                tab: if left {
                    old(self)@.tab.left()
                } else {
                    old(self)@.tab.right()
                },
                ..old(self)@
            }),
    {
        self.detail_tab = match (self.detail_tab, left) {
            (DetailTab::Trackers, false) => DetailTab::Peers,
            (DetailTab::Peers, false) => DetailTab::Content,
            (DetailTab::Content, false) => DetailTab::Trackers,
            (DetailTab::Trackers, true) => DetailTab::Content,
            (DetailTab::Peers, true) => DetailTab::Trackers,
            (DetailTab::Content, true) => DetailTab::Peers,
        };
    }

    /// Shows the detail, if it is not shown yet.
    pub fn open_detail(&mut self)
        requires
            old(self).wf(),
        ensures
            final(self).wf(),
            final(self)@ == (if old(self)@.show_detail {
                old(self)@
            } else {
                MainView { show_detail: true, detail_due: true, ..old(self)@ }
            }),
    {
        if !self.show_detail {
            self.show_detail = true;
            self.detail_due = true;
        }
    }

    /// Says that no torrent is selected.
    fn refuse(&mut self) -> (out: MainOutcome)
        requires
            old(self).wf(),
        ensures
            final(self).wf(),
            (final(self)@, out@) == without_torrent(old(self)@),
    {
        self.tell("no torrent selected".to_owned());
        MainOutcome::Stay
    }

    /// Asks for the name of the selected torrent.
    fn open_rename_prompt(&mut self) -> (out: MainOutcome)
        requires
            old(self).wf(),
        ensures
            final(self).wf(),
            (final(self)@, out@) == rename_asked(old(self)@),
    {
        match self.selected_torrent_index() {
            None => self.refuse(),
            Some(i) => MainOutcome::Ask(Prompt::for_rename(i, self.torrents[i].name.as_str())),
        }
    }

    /// Asks for the folder of the selected torrent.
    fn open_move_prompt(&mut self) -> (out: MainOutcome)
        requires
            old(self).wf(),
        ensures
            final(self).wf(),
            (final(self)@, out@) == move_asked(old(self)@),
    {
        match self.selected_torrent_index() {
            None => self.refuse(),
            Some(i) => MainOutcome::Ask(Prompt::for_move(i, self.torrents[i].save_path.as_str())),
        }
    }

    /// Asks for the limits of the selected torrent.
    fn open_rate_limit_prompt(&mut self) -> (out: MainOutcome)
        requires
            old(self).wf(),
        ensures
            final(self).wf(),
            (final(self)@, out@) == limits_asked(old(self)@),
    {
        match self.selected_torrent_index() {
            None => self.refuse(),
            Some(i) => MainOutcome::Ask(
                Prompt::for_limits(
                    i,
                    self.torrents[i].download_limit,
                    self.torrents[i].upload_limit,
                ),
            ),
        }
    }

    /// Asks for a tracker of the selected torrent.
    fn open_add_tracker_prompt(&mut self) -> (out: MainOutcome)
        requires
            old(self).wf(),
        ensures
            final(self).wf(),
            (final(self)@, out@) == tracker_asked(old(self)@),
    {
        match self.selected_torrent_index() {
            None => self.refuse(),
            Some(i) => MainOutcome::Ask(Prompt::for_tracker(i)),
        }
    }

    /// Asks for the path of the selected file or folder.
    fn open_content_rename_prompt(&mut self) -> (out: MainOutcome)
        requires
            old(self).wf(),
        ensures
            final(self).wf(),
            (final(self)@, out@) == content_rename_asked(old(self)@),
    {
        let index: usize = match self.selected_torrent_index() {
            Some(index) => index,
            None => {
                return self.refuse();
            },
        };
        if self.files.detail.is_none() {
            self.tell("file list not loaded".to_owned());
            return MainOutcome::Stay;
        }
        let row = match self.files.selected_row() {
            Some(row) => row,
            None => {
                self.tell("no file selected".to_owned());
                return MainOutcome::Stay;
            },
        };
        if row.is_folder {
            return MainOutcome::Ask(Prompt::for_folder(index, row.full_path.as_str()));
        }
        match (row.file_index, &self.files.detail) {
            (Some(i), Some(detail)) => if i < detail.files.len() {
                MainOutcome::Ask(
                    Prompt::for_file(index, i, row.label.as_str(), detail.files[i].path.as_str()),
                )
            } else {
                MainOutcome::Stay
            },
            _ => MainOutcome::Stay,
        }
    }

    /// Removes the selected tracker.
    fn remove_selected_tracker(&mut self) -> (out: MainOutcome)
        requires
            old(self).wf(),
        ensures
            final(self).wf(),
            (final(self)@, out@) == tracker_removal(old(self)@),
    {
        let index: usize = match self.selected_torrent_index() {
            Some(index) => index,
            None => {
                return self.refuse();
            },
        };
        let detail = match &self.files.detail {
            Some(detail) => detail,
            None => {
                self.tell("tracker list not loaded".to_owned());
                return MainOutcome::Stay;
            },
        };
        let row: usize = match self.trackers.selected {
            Some(row) => row,
            None => {
                self.tell("no tracker selected".to_owned());
                return MainOutcome::Stay;
            },
        };
        if row >= detail.trackers.len() {
            self.tell("tracker index out of range".to_owned());
            return MainOutcome::Stay;
        }
        let url = detail.trackers[row].url.clone();
        let asked = Purpose::RemoveTracker { url: url.clone() };
        MainOutcome::Send(Request::RemoveTracker { index, url }, asked)
    }

    /// Pauses the selected torrent, or resumes it.
    fn toggle_pause(&self) -> (out: MainOutcome)
        requires
            self.wf(),
        ensures
            out@ == pause_toggled(self@),
    {
        match self.selected_torrent_index() {
            None => MainOutcome::Stay,
            Some(index) => if self.torrents[index].is_paused {
                MainOutcome::Send(Request::Resume { index }, Purpose::Pause)
            } else {
                MainOutcome::Send(Request::Pause { index }, Purpose::Pause)
            },
        }
    }

    /// Gives the selected row of the files a priority.
    fn set_focused_priority(&self, priority: u8) -> (out: MainOutcome)
        requires
            self.wf(),
        ensures
            out@ == priority_given(self@, priority),
    {
        let index: usize = match self.selected_torrent_index() {
            Some(index) => index,
            None => {
                return MainOutcome::Stay;
            },
        };
        let targets = self.files.targets();
        if targets.len() == 0 {
            return MainOutcome::Stay;
        }
        let count: usize = targets.len();
        MainOutcome::Send(
            Request::SetFilePrioritiesBatch { index, priorities: give_priority(&targets, priority) },
            Purpose::Priority { priority, count },
        )
    }

    /// Asks whether the selected torrent is to be deleted.
    fn open_delete_confirm(&self) -> (out: MainOutcome)
        requires
            self.wf(),
        ensures
            out@ == delete_asked(self@),
    {
        match self.selected_torrent_index() {
            None => MainOutcome::Stay,
            Some(i) => MainOutcome::Confirm(
                ConfirmDelete {
                    torrent_index: i,
                    torrent_name: self.torrents[i].name.clone(),
                    delete_files: false,
                },
            ),
        }
    }

    /// Opens the line to search where the focus is.
    fn open_search(&self) -> (out: MainOutcome)
        requires
            self.wf(),
        ensures
            out@ == search_opened(self@),
    {
        if self.focus == Pane::Sidebar {
            MainOutcome::Stay
        } else if self.focus == Pane::Detail && self.detail_tab == DetailTab::Content {
            MainOutcome::Input(
                TextInput {
                    purpose: InputPurpose::ContentFilter,
                    buffer: self.files.filter.clone(),
                },
            )
        } else {
            MainOutcome::Input(
                TextInput { purpose: InputPurpose::ListFilter, buffer: self.filters.name.clone() },
            )
        }
    }

    /// Collapses or expands the selected folder of the content tab.
    fn collapse_focused(&mut self, collapse: bool)
        requires
            old(self).wf(),
        ensures
            final(self).wf(),
            final(self)@ == (if in_content(old(self)@) {
                MainView { files: folded(old(self)@.files, collapse), ..old(self)@ }
            } else {
                old(self)@
            }),
    {
        if self.focus == Pane::Detail && self.detail_tab == DetailTab::Content {
            self.files.fold(collapse);
        }
    }

    /// A key that moves about; tells whether it is one.
    fn moving_key(&mut self, key: Key) -> (r: bool)
        requires
            old(self).wf(),
        ensures
            final(self).wf(),
            r == (after_moving_key(old(self)@, key) is Some),
            final(self)@ == (match after_moving_key(old(self)@, key) {
                Some(v) => v,
                None => old(self)@,
            }),
    {
        if key.goes_down() {
            self.move_focused(1);
        } else if key.goes_up() {
            self.move_focused(-1);
        } else if key.code == Code::PageDown {
            self.move_focused(10);
        } else if key.code == Code::PageUp {
            self.move_focused(-10);
        } else {
            return false;
        }
        true
    }

    /// A key that changes what is on screen; tells whether it is one.
    fn pane_key(&mut self, key: Key) -> (r: bool)
        requires
            old(self).wf(),
        ensures
            final(self).wf(),
            r == (after_pane_key(old(self)@, key) is Some),
            final(self)@ == (match after_pane_key(old(self)@, key) {
                Some(v) => v,
                None => old(self)@,
            }),
    {
        if key.plain('a') || key.code == Code::Left {
            self.collapse_focused(true);
        } else if key.plain('d') || key.code == Code::Right {
            self.collapse_focused(false);
        } else if key.code == Code::Tab {
            self.cycle_focus();
        } else if key.plain('q') {
            if self.show_sidebar && self.focus == Pane::Sidebar {
                self.focus = Pane::List;
            }
            self.show_sidebar = !self.show_sidebar;
        } else if key.plain('e') {
            if self.show_detail {
                if self.focus == Pane::Detail {
                    self.focus = Pane::List;
                }
                self.show_detail = false;
            } else {
                self.show_detail = true;
                self.detail_due = true;
            }
        } else if key.plain('[') {
            self.cycle_detail_tab(true);
        } else if key.plain(']') {
            self.cycle_detail_tab(false);
        } else if key.code == Code::Enter && self.focus == Pane::Sidebar {
            self.apply_sidebar_selection();
        } else {
            return false;
        }
        true
    }

    /// A key that acts on something.
    fn action_key(&mut self, key: Key) -> (out: MainOutcome)
        requires
            old(self).wf(),
        ensures
            final(self).wf(),
            (final(self)@, out@) == after_action_key(old(self)@, key),
    {
        let in_content = self.focus == Pane::Detail && self.detail_tab == DetailTab::Content;
        if key.plain(',') || key.with_control(',') {
            return MainOutcome::Settings;
        }
        if key.plain('u') {
            return MainOutcome::Feeds;
        }
        if key.plain('p') {
            return self.toggle_pause();
        }
        if key.plain('r') || key.code == Code::F(2) {
            if in_content {
                return self.open_content_rename_prompt();
            }
            return self.open_rename_prompt();
        }
        if key.plain('m') {
            return self.open_move_prompt();
        }
        if key.plain('n') || key.with_control('n') {
            return MainOutcome::AskSources;
        }
        if key.with_shift('R') {
            return match self.selected_torrent_index() {
                Some(index) => MainOutcome::Send(
                    Request::Recheck { index },
                    Purpose::Recheck { index },
                ),
                None => MainOutcome::Stay,
            };
        }
        if key.with_shift('T') {
            return match self.selected_torrent_index() {
                Some(index) => MainOutcome::Send(
                    Request::Reannounce { index },
                    Purpose::Reannounce { index },
                ),
                None => MainOutcome::Stay,
            };
        }
        if key.plain('g') {
            return match self.selected_torrent_index() {
                Some(index) => MainOutcome::Send(Request::Magnet { index }, Purpose::Magnet),
                None => MainOutcome::Stay,
            };
        }
        if key.with_shift('S') {
            return match self.selected_torrent_index() {
                Some(index) => MainOutcome::Send(
                    Request::SetSequential { index, enabled: true },
                    Purpose::Sequential { index },
                ),
                None => MainOutcome::Stay,
            };
        }
        if key.with_shift('C') {
            return MainOutcome::Columns;
        }
        if key.with_shift('L') {
            return self.open_rate_limit_prompt();
        }
        if key.code == Code::Delete || key.plain('x') || key.with_shift('X') {
            return self.open_delete_confirm();
        }
        if key.code == Code::Char('?') {
            return MainOutcome::Help;
        }
        if in_content {
            if let Some(priority) = priority_of_key(key) {
                return self.set_focused_priority(priority);
            }
        }
        if key.plain('/') {
            return self.open_search();
        }
        MainOutcome::Stay
    }

    /// A key in the main view.
    pub fn handle_key(&mut self, key: Key) -> (out: MainOutcome)
        requires
            old(self).wf(),
        ensures
            final(self).wf(),
            (final(self)@, out@) == after_main_key(old(self)@, key),
    {
        if key.quits() {
            return MainOutcome::Quit;
        }
        if self.moving_key(key) {
            return MainOutcome::Stay;
        }
        if self.focus == Pane::Detail && self.detail_tab == DetailTab::Trackers {
            if key.plain('a') {
                return self.open_add_tracker_prompt();
            }
            if key.plain('d') || key.code == Code::Delete {
                return self.remove_selected_tracker();
            }
        }
        if self.pane_key(key) {
            return MainOutcome::Stay;
        }
        self.action_key(key)
    }
}

/// No key of the main view deletes a torrent: it asks first.
pub proof fn law_main_keys_delete_nothing(v: MainView, key: Key)
    ensures
        after_main_key(v, key).1 matches MainOut::Send(_, purpose) ==> !(purpose is Delete),
{
}

} // verus!
