//! Choosing what to download of torrents that were added paused.
//!
//! One torrent at a time: its files get priorities and names before anything is fetched.

use crate::ipc::{FileInfo, Request, RequestView, TorrentDetail};
use crate::text::{concat4, decimal, decimal_u64, is_empty, opt_text, same, split, split_on, texts};
use crate::tui::files::{
    files_of, folded, refiltered, selected_of, stepped, target_files, FilePane, FilesView,
};
use crate::tui::keys::{Code, Key};
use crate::tui::selection::Selection;
use crate::tui::settings::{lengthen, shorten, shortened};
use vstd::prelude::*;

verus! {

/// What is being renamed.
#[derive(Clone, Debug, PartialEq, Eq)]
pub enum PriorityRenameTarget {
    Torrent,
    File { file_index: usize },
    Folder { old_prefix: String },
}

/// What is being renamed, as plain values.
pub enum TargetView {
    Torrent,
    File(usize),
    Folder(Seq<char>),
}

impl View for PriorityRenameTarget {
    type V = TargetView;

    open spec fn view(&self) -> TargetView {
        match *self {
            PriorityRenameTarget::Torrent => TargetView::Torrent,
            PriorityRenameTarget::File { file_index } => TargetView::File(file_index),
            PriorityRenameTarget::Folder { old_prefix } => TargetView::Folder(old_prefix@),
        }
    }
}

/// The torrents to go through, and the list of files of the current one.
#[derive(Clone, Debug, PartialEq, Eq)]
pub struct PriorityStep {
    /// where the torrents came from, for display
    pub entries: Vec<String>,
    /// their places in the daemon's list
    pub indices: Vec<usize>,
    pub current: usize,
    pub files: FilePane,
    /// whether the filter is being typed
    pub filter_active: bool,
    pub rename_buffer: Option<String>,
    pub rename_target: Option<PriorityRenameTarget>,
    /// whether the files are to be asked for at once
    pub poll_now: bool,
}

/// The step as plain values.
pub struct StepView {
    pub entries: Seq<Seq<char>>,
    pub indices: Seq<usize>,
    pub current: int,
    pub files: FilesView,
    pub filter_active: bool,
    pub rename: Option<Seq<char>>,
    pub target: Option<TargetView>,
    pub poll_now: bool,
}

impl View for PriorityStep {
    type V = StepView;

    open spec fn view(&self) -> StepView {
        StepView {
            entries: texts(self.entries@),
            indices: self.indices@,
            current: self.current as int,
            files: self.files@,
            filter_active: self.filter_active,
            rename: opt_text(self.rename_buffer),
            target: match self.rename_target {
                Some(t) => Some(t@),
                None => None,
            },
            poll_now: self.poll_now,
        }
    }
}

/// What a key leads to.
#[derive(Clone, Debug, PartialEq, Eq)]
pub enum StepOutcome {
    Stay,
    /// end the program
    Quit,
    /// all torrents are done
    Finish,
    /// ask this of the daemon
    Send(Request),
}

/// What a key leads to, as plain values.
pub enum StepOut {
    Stay,
    Quit,
    Finish,
    Send(RequestView),
}

impl View for StepOutcome {
    type V = StepOut;

    open spec fn view(&self) -> StepOut {
        match *self {
            StepOutcome::Stay => StepOut::Stay,
            StepOutcome::Quit => StepOut::Quit,
            StepOutcome::Finish => StepOut::Finish,
            StepOutcome::Send(request) => StepOut::Send(request@),
        }
    }
}

/// The torrent that is being configured.
pub open spec fn step_torrent(v: StepView) -> Option<usize> {
    if v.current < v.indices.len() {
        Some(v.indices[v.current])
    } else {
        None
    }
}

/// The list of files before they are known, at its first row.
pub open spec fn fresh_files() -> FilesView {
    FilesView {
        detail: None,
        done: Seq::empty(),
        filter: Seq::empty(),
        collapsed: Set::empty(),
        selection: Selection { selected: Some(0), offset: 0 },
    }
}

/// The step after going on to the next torrent, or its end.
pub open spec fn step_advanced(v: StepView) -> (StepView, StepOut) {
    if v.current + 1 < v.indices.len() {
        (
            StepView {
                current: v.current + 1,
                files: fresh_files(),
                poll_now: true,
                filter_active: false,
                ..v
            },
            StepOut::Stay,
        )
    } else {
        (v, StepOut::Finish)
    }
}

/// The priority that a digit stands for: skip, low, normal, high or highest.
pub open spec fn digit_priority(digit: int) -> Option<u8> {
    if digit == 0 {
        Some(0)
    } else if digit == 1 {
        Some(1)
    } else if digit == 2 {
        Some(4)
    } else if digit == 3 {
        Some(6)
    } else if digit == 4 {
        Some(7)
    } else {
        None
    }
}

/// The priority that a key stands for.
pub open spec fn key_priority(key: Key) -> Option<u8> {
    match key.digit() {
        Some(d) => digit_priority(d),
        None => None,
    }
}

/// The same priority for each of the files.
pub open spec fn with_priority(files: Seq<usize>, priority: u8) -> Seq<(usize, u8)> {
    files.map_values(|i: usize| (i, priority))
}

/// The step after setting the priority of the selected row.
pub open spec fn step_prioritised(v: StepView, priority: u8) -> (StepView, StepOut) {
    let targets = target_files(v.files);
    match step_torrent(v) {
        Some(index) if targets.len() > 0 => (
            StepView { poll_now: true, ..v },
            StepOut::Send(
                RequestView::SetFilePrioritiesBatch {
                    index,
                    priorities: with_priority(targets, priority),
                },
            ),
        ),
        _ => (v, StepOut::Stay),
    }
}

/// The first file from `k` on with the path.
pub open spec fn file_at(files: Seq<FileInfo>, path: Seq<char>, k: int) -> Option<usize>
    decreases files.len() - k,
{
    if k < 0 || k >= files.len() {
        None
    } else if files[k].path@ == path {
        Some(k as usize)
    } else {
        file_at(files, path, k + 1)
    }
}

/// The step with the name of the selected row ready to be changed.
pub open spec fn rename_opened(v: StepView) -> StepView {
    match selected_of(v.files) {
        None => v,
        Some(row) => if row.is_folder {
            StepView { rename: Some(row.label), target: Some(TargetView::Folder(row.path)), ..v }
        } else {
            match file_at(files_of(v.files.detail), row.path, 0) {
                None => v,
                Some(i) => StepView {
                    rename: Some(split(row.path, '/').last()),
                    target: Some(TargetView::File(i)),
                    ..v
                },
            }
        },
    }
}

/// The step with the name of the torrent ready to be changed.
pub open spec fn torrent_rename_opened(v: StepView) -> StepView {
    StepView {
        rename: Some(
            match v.files.detail {
                Some(d) => d.info.name@,
                None => Seq::empty(),
            },
        ),
        target: Some(TargetView::Torrent),
        ..v
    }
}

/// The step after the new name was confirmed, and what is asked of the daemon.
pub open spec fn rename_committed(v: StepView, name: Seq<char>) -> (StepView, StepOut) {
    let closed = StepView { rename: None, target: None, ..v };
    match (v.target, step_torrent(v)) {
        (Some(target), Some(index)) => (
            StepView { poll_now: true, ..closed },
            StepOut::Send(
                match target {
                    TargetView::Torrent => RequestView::RenameTorrent { index, new_name: name },
                    TargetView::File(file_index) => RequestView::RenameFile {
                        index,
                        file_index,
                        new_name: name,
                    },
                    TargetView::Folder(old_prefix) => RequestView::RenameFolder {
                        index,
                        old_prefix,
                        new_prefix: name,
                    },
                },
            ),
        ),
        _ => (closed, StepOut::Stay),
    }
}

/// The step after a key while a name is typed.
pub open spec fn after_rename_key(v: StepView, name: Seq<char>, key: Key) -> (StepView, StepOut) {
    if key.is_quit() {
        (v, StepOut::Quit)
    } else if key.code == Code::Esc {
        (StepView { rename: None, target: None, ..v }, StepOut::Stay)
    } else if key.code == Code::Enter {
        rename_committed(v, name)
    } else if key.code == Code::Backspace {
        (StepView { rename: Some(shortened(name)), ..v }, StepOut::Stay)
    } else {
        match key.typed() {
            Some(c) => (StepView { rename: Some(name.push(c)), ..v }, StepOut::Stay),
            None => (v, StepOut::Stay),
        }
    }
}

/// The step after a key while the filter is typed.
pub open spec fn after_filter_key(v: StepView, key: Key) -> (StepView, StepOut) {
    if key.is_quit() {
        (v, StepOut::Quit)
    } else if key.code == Code::Esc || key.code == Code::Enter {
        (StepView { filter_active: false, ..v }, StepOut::Stay)
    } else if key.code == Code::Backspace {
        (
            StepView { files: refiltered(v.files, shortened(v.files.filter)), ..v },
            StepOut::Stay,
        )
    } else {
        match key.typed() {
            Some(c) => (
                StepView { files: refiltered(v.files, v.files.filter.push(c)), ..v },
                StepOut::Stay,
            ),
            None => (v, StepOut::Stay),
        }
    }
}

/// The step after a key that moves about, folds or sets a priority.
pub open spec fn after_list_key(v: StepView, key: Key) -> (StepView, StepOut) {
    if key.is_quit() {
        (v, StepOut::Quit)
    } else if key.code == Code::Tab || key.code == Code::Enter || key.code == Code::Esc {
        step_advanced(v)
    } else if key.is('r') || key.code == Code::F(2) {
        (rename_opened(v), StepOut::Stay)
    } else if key.is('t') {
        (torrent_rename_opened(v), StepOut::Stay)
    } else if key.is_down() {
        (StepView { files: stepped(v.files, 1), ..v }, StepOut::Stay)
    } else if key.is_up() {
        (StepView { files: stepped(v.files, -1), ..v }, StepOut::Stay)
    } else if key.code == Code::PageDown {
        (StepView { files: stepped(v.files, 10), ..v }, StepOut::Stay)
    } else if key.code == Code::PageUp {
        (StepView { files: stepped(v.files, -10), ..v }, StepOut::Stay)
    } else if key.is('a') || key.code == Code::Left {
        (StepView { files: folded(v.files, true), ..v }, StepOut::Stay)
    } else if key.is('d') || key.code == Code::Right {
        (StepView { files: folded(v.files, false), ..v }, StepOut::Stay)
    } else if key.is('/') {
        (StepView { filter_active: true, ..v }, StepOut::Stay)
    } else {
        match key_priority(key) {
            Some(priority) => step_prioritised(v, priority),
            None => (v, StepOut::Stay),
        }
    }
}

/// The step after a key, and what it leads to. A name that is being typed takes every key, then
/// a filter.
pub open spec fn after_step_key(v: StepView, key: Key) -> (StepView, StepOut) {
    match v.rename {
        Some(name) => after_rename_key(v, name, key),
        None => if v.filter_active {
            after_filter_key(v, key)
        } else {
            after_list_key(v, key)
        },
    }
}

/// The priority that a key stands for.
pub fn priority_of_key(key: Key) -> (r: Option<u8>)
    ensures
        r == key_priority(key),
{
    match key.pressed_digit() {
        Some(d) => if d == 0 {
            Some(0)
        } else if d == 1 {
            Some(1)
        } else if d == 2 {
            Some(4)
        } else if d == 3 {
            Some(6)
        } else if d == 4 {
            Some(7)
        } else {
            None
        },
        None => None,
    }
}

/// The same priority for each of the files.
pub fn give_priority(files: &Vec<usize>, priority: u8) -> (r: Vec<(usize, u8)>)
    ensures
        r@ == with_priority(files@, priority),
{
    let mut out: Vec<(usize, u8)> = Vec::new();
    let mut i: usize = 0;
    while i < files.len()
        invariant
            i <= files@.len(),
            out@.len() == i,
            forall|j: int| 0 <= j < i ==> #[trigger] out@[j] == (files@[j], priority),
        decreases files@.len() - i,
    {
        out.push((files[i], priority));
        i = i + 1;
    }
    assert(out@ =~= with_priority(files@, priority));
    out
}

/// The first file with the path.
fn find_file(files: &Vec<FileInfo>, path: &str) -> (r: Option<usize>)
    ensures
        r == file_at(files@, path@, 0),
{
    let mut i: usize = 0;
    while i < files.len()
        invariant
            i <= files@.len(),
            file_at(files@, path@, 0) == file_at(files@, path@, i as int),
        decreases files@.len() - i,
    {
        if same(files[i].path.as_str(), path) {
            return Some(i);
        }
        i = i + 1;
    }
    None
}

/// What follows the last slash of a path.
fn last_segment(path: &str) -> (r: String)
    ensures
        r@ == split(path@, '/').last(),
{
    proof {
        crate::text::lemma_split_nonempty(path@, '/');
    }
    let parts = split_on(path, '/');
    assert(texts(parts@).len() == parts@.len());
    assert(texts(parts@).last() == parts@.last()@);
    parts[parts.len() - 1].clone()
}

impl PriorityStep {
    /// The list of files is consistent.
    pub open spec fn wf(&self) -> bool {
        self.files.wf()
    }

    /// Begins with the first of those torrents.
    pub fn new(entries: Vec<String>, indices: Vec<usize>) -> (r: PriorityStep)
        ensures
            r.wf(),
            r@ == (StepView {
                entries: texts(entries@),
                indices: indices@,
                current: 0,
                files: fresh_files(),
                filter_active: false,
                rename: None,
                target: None,
                poll_now: true,
            }),
    {
        PriorityStep {
            entries,
            indices,
            current: 0,
            files: FilePane::new(Selection::first()),
            filter_active: false,
            rename_buffer: None,
            rename_target: None,
            poll_now: true,
        }
    }

    /// The torrent that is being configured.
    pub fn torrent_index(&self) -> (r: Option<usize>)
        ensures
            r == step_torrent(self@),
    {
        if self.current < self.indices.len() {
            Some(self.indices[self.current])
        } else {
            None
        }
    }

    /// Notes that the files are asked for; tells what is asked of the daemon.
    pub fn poll_priority_step(&mut self) -> (r: Option<Request>)
        requires
            old(self).wf(),
        ensures
            final(self).wf(),
            final(self)@ == (StepView { poll_now: false, ..old(self)@ }),
            match step_torrent(old(self)@) {
                Some(index) => r == Some(Request::Info { index }),
                None => r is None,
            },
    {
        self.poll_now = false;
        match self.torrent_index() {
            Some(index) => Some(Request::Info { index }),
            None => None,
        }
    }

    /// Takes up the files of the current torrent.
    pub fn take_detail(&mut self, detail: TorrentDetail, done: Vec<i64>)
        requires
            old(self).wf(),
            done@.len() == detail.files@.len(),
        ensures
            final(self).wf(),
            final(self)@ == (StepView {
                files: FilesView { detail: Some(detail), done: done@, ..old(self)@.files },
                ..old(self)@
            }),
    {
        self.files.load(detail, done);
    }

    /// Goes on to the next torrent, or ends.
    fn advance_priority_step(&mut self) -> (out: StepOutcome)
        requires
            old(self).wf(),
        ensures
            final(self).wf(),
            (final(self)@, out@) == step_advanced(old(self)@),
    {
        if self.current < self.indices.len() && self.current + 1 < self.indices.len() {
            self.current = self.current + 1;
            self.files = FilePane::new(Selection::first());
            self.poll_now = true;
            self.filter_active = false;
            StepOutcome::Stay
        } else {
            StepOutcome::Finish
        }
    }

    /// Gives the selected row a priority.
    fn set_step_priority(&mut self, priority: u8) -> (out: StepOutcome)
        requires
            old(self).wf(),
        ensures
            final(self).wf(),
            (final(self)@, out@) == step_prioritised(old(self)@, priority),
    {
        let index: usize = match self.torrent_index() {
            Some(index) => index,
            None => {
                return StepOutcome::Stay;
            },
        };
        let targets = self.files.targets();
        if targets.len() == 0 {
            return StepOutcome::Stay;
        }
        self.poll_now = true;
        StepOutcome::Send(
            Request::SetFilePrioritiesBatch { index, priorities: give_priority(&targets, priority) },
        )
    }

    /// Opens the name of the selected row.
    fn open_priority_step_rename(&mut self)
        requires
            old(self).wf(),
        ensures
            final(self).wf(),
            final(self)@ == rename_opened(old(self)@),
    {
        let row = match self.files.selected_row() {
            Some(row) => row,
            None => {
                return;
            },
        };
        if row.is_folder {
            self.rename_target = Some(PriorityRenameTarget::Folder { old_prefix: row.full_path });
            self.rename_buffer = Some(row.label);
            return;
        }
        let found: Option<usize> = match &self.files.detail {
            Some(detail) => find_file(&detail.files, row.full_path.as_str()),
            None => None,
        };
        if let Some(file_index) = found {
            self.rename_buffer = Some(last_segment(row.full_path.as_str()));
            self.rename_target = Some(PriorityRenameTarget::File { file_index });
        }
    }

    /// Opens the name of the torrent.
    fn open_priority_step_torrent_rename(&mut self)
        requires
            old(self).wf(),
        ensures
            final(self).wf(),
            final(self)@ == torrent_rename_opened(old(self)@),
    {
        let name = match &self.files.detail {
            Some(detail) => detail.info.name.clone(),
            None => String::new(),
        };
        assert(self.files.detail is None ==> name@ =~= Seq::<char>::empty());
        self.rename_target = Some(PriorityRenameTarget::Torrent);
        self.rename_buffer = Some(name);
    }

    /// Confirms the new name.
    fn commit_priority_step_rename(&mut self, name: String) -> (out: StepOutcome)
        requires
            old(self).wf(),
        ensures
            final(self).wf(),
            (final(self)@, out@) == rename_committed(old(self)@, name@),
    {
        let target = self.rename_target.take();
        self.rename_buffer = None;
        let index: Option<usize> = self.torrent_index();
        match (target, index) {
            (Some(target), Some(index)) => {
                self.poll_now = true;
                StepOutcome::Send(
                    match target {
                        PriorityRenameTarget::Torrent => Request::RenameTorrent {
                            index,
                            new_name: name,
                        },
                        PriorityRenameTarget::File { file_index } => Request::RenameFile {
                            index,
                            file_index,
                            new_name: name,
                        },
                        PriorityRenameTarget::Folder { old_prefix } => Request::RenameFolder {
                            index,
                            old_prefix,
                            new_prefix: name,
                        },
                    },
                )
            },
            _ => StepOutcome::Stay,
        }
    }

    /// A key while a name is typed.
    fn rename_key(&mut self, name: String, key: Key) -> (out: StepOutcome)
        requires
            old(self).wf(),
        ensures
            final(self).wf(),
            (final(self)@, out@) == after_rename_key(old(self)@, name@, key),
    {
        if key.quits() {
            return StepOutcome::Quit;
        }
        if key.code == Code::Esc {
            self.rename_buffer = None;
            self.rename_target = None;
        } else if key.code == Code::Enter {
            return self.commit_priority_step_rename(name);
        } else if key.code == Code::Backspace {
            self.rename_buffer = Some(shorten(name.as_str()));
        } else if let Some(c) = key.types() {
            self.rename_buffer = Some(lengthen(name.as_str(), c));
        }
        StepOutcome::Stay
    }

    /// A key while the filter is typed.
    fn filter_key(&mut self, key: Key) -> (out: StepOutcome)
        requires
            old(self).wf(),
        ensures
            final(self).wf(),
            (final(self)@, out@) == after_filter_key(old(self)@, key),
    {
        if key.quits() {
            return StepOutcome::Quit;
        }
        if key.code == Code::Esc || key.code == Code::Enter {
            self.filter_active = false;
        } else if key.code == Code::Backspace {
            let filter = shorten(self.files.filter.as_str());
            self.files.set_filter(filter);
        } else if let Some(c) = key.types() {
            let filter = lengthen(self.files.filter.as_str(), c);
            self.files.set_filter(filter);
        }
        StepOutcome::Stay
    }

    /// A key that moves about, folds or sets a priority.
    fn list_key(&mut self, key: Key) -> (out: StepOutcome)
        requires
            old(self).wf(),
        ensures
            final(self).wf(),
            (final(self)@, out@) == after_list_key(old(self)@, key),
    {
        if key.quits() {
            return StepOutcome::Quit;
        }
        if key.code == Code::Tab || key.code == Code::Enter || key.code == Code::Esc {
            return self.advance_priority_step();
        }
        if key.plain('r') || key.code == Code::F(2) {
            self.open_priority_step_rename();
        } else if key.plain('t') {
            self.open_priority_step_torrent_rename();
        } else if key.goes_down() {
            self.files.move_by(1);
        } else if key.goes_up() {
            self.files.move_by(-1);
        } else if key.code == Code::PageDown {
            self.files.move_by(10);
        } else if key.code == Code::PageUp {
            self.files.move_by(-10);
        } else if key.plain('a') || key.code == Code::Left {
            self.files.fold(true);
        } else if key.plain('d') || key.code == Code::Right {
            self.files.fold(false);
        } else if key.plain('/') {
            self.filter_active = true;
        } else if let Some(priority) = priority_of_key(key) {
            return self.set_step_priority(priority);
        }
        StepOutcome::Stay
    }

    /// A key on the step.
    pub fn handle_priority_step_key(&mut self, key: Key) -> (out: StepOutcome)
        requires
            old(self).wf(),
        ensures
            final(self).wf(),
            (final(self)@, out@) == after_step_key(old(self)@, key),
    {
        let name = match &self.rename_buffer {
            Some(name) => Some(name.clone()),
            None => None,
        };
        if let Some(name) = name {
            return self.rename_key(name, key);
        }
        if self.filter_active {
            return self.filter_key(key);
        }
        self.list_key(key)
    }
}

// ----- what is drawn -----

/// The line below the files.
#[derive(Clone, Debug, PartialEq, Eq)]
pub enum StepBar {
    /// the name that is typed
    Rename(String),
    /// the filter that is typed
    Filter(String),
    /// the filter that the list has
    Filtered(String),
    /// how to filter
    Hint,
}

/// The line below the files, as plain values.
pub enum BarView {
    Rename(Seq<char>),
    Filter(Seq<char>),
    Filtered(Seq<char>),
    Hint,
}

impl View for StepBar {
    type V = BarView;

    open spec fn view(&self) -> BarView {
        match *self {
            StepBar::Rename(text) => BarView::Rename(text@),
            StepBar::Filter(text) => BarView::Filter(text@),
            StepBar::Filtered(text) => BarView::Filtered(text@),
            StepBar::Hint => BarView::Hint,
        }
    }
}

/// The line below the files: a name that is typed comes before a filter.
pub open spec fn bar_of(v: StepView) -> BarView {
    match v.rename {
        Some(text) => BarView::Rename(text),
        None => if v.filter_active {
            BarView::Filter(v.files.filter)
        } else if v.files.filter.len() > 0 {
            BarView::Filtered(v.files.filter)
        } else {
            BarView::Hint
        },
    }
}

/// The place of the torrent among all.
pub open spec fn place_text(v: StepView) -> Seq<char> {
    "torrent "@ + decimal(v.current + 1) + "/"@ + decimal(v.entries.len() as int)
}

/// Where the torrent came from.
pub open spec fn entry_text(v: StepView) -> Seq<char> {
    if v.current < v.entries.len() {
        v.entries[v.current]
    } else {
        Seq::empty()
    }
}

/// What going on leads to.
pub open spec fn onward_text(v: StepView) -> Seq<char> {
    if v.entries.len() > 1 {
        "next torrent  "@
    } else {
        "done  "@
    }
}

impl PriorityStep {
    /// The line below the files.
    pub fn bar(&self) -> (r: StepBar)
        ensures
            r@ == bar_of(self@),
    {
        if let Some(text) = &self.rename_buffer {
            return StepBar::Rename(text.clone());
        }
        if self.filter_active {
            StepBar::Filter(self.files.filter.clone())
        } else if is_empty(self.files.filter.as_str()) {
            StepBar::Hint
        } else {
            StepBar::Filtered(self.files.filter.clone())
        }
    }

    /// The place of the torrent among all, where it came from, and what going on leads to.
    pub fn heading(&self) -> (r: (String, String, &'static str))
        requires
            self.current < u64::MAX,
        ensures
            r.0@ == place_text(self@),
            r.1@ == entry_text(self@),
            r.2@ == onward_text(self@),
    {
        assert(texts(self.entries@).len() == self.entries@.len());
        let at = decimal_u64(self.current as u64 + 1);
        let all = decimal_u64(self.entries.len() as u64);
        let entry = if self.current < self.entries.len() {
            assert(texts(self.entries@)[self.current as int]
                == self.entries@[self.current as int]@);
            self.entries[self.current].clone()
        } else {
            let empty = String::new();
            assert(empty@ =~= Seq::<char>::empty());
            empty
        };
        let onward = if self.entries.len() > 1 { "next torrent  " } else { "done  " };
        (concat4("torrent ", at.as_str(), "/", all.as_str()), entry, onward)
    }
}

// ----- laws -----

/// Whatever is open on the step, ctrl+c ends the program and changes nothing.
pub proof fn law_control_c_quits_step(v: StepView, key: Key)
    requires
        key.is_quit(),
    ensures
        after_step_key(v, key) == (v, StepOut::Quit),
{
}

/// Esc leaves the name first, then the filter, then the torrent: it never goes on to the next
/// torrent while something is being typed.
pub proof fn law_escape_closes_what_is_typed_first(v: StepView, key: Key)
    requires
        key.code == Code::Esc,
        v.rename is Some || v.filter_active,
    ensures
        after_step_key(v, key).1 == StepOut::Stay,
        after_step_key(v, key).0.current == v.current,
        after_step_key(v, key).0.files == v.files,
{
}

} // verus!
