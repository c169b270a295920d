//! The list of a torrent's files: a tree, or the files that a filter lets through.

use crate::ipc::{FileInfo, TorrentDetail};
use crate::names::NameSet;
use crate::text::{chars_of, concat2, is_empty, lowercase, same, starts_with, texts};
use crate::textfield::{common_prefix, common_prefix_of};
use crate::tui::selection::{moved, Selection};
use crate::tui::tree::{
    build_tree_rows, filter_content_rows, filter_paths, flat_row, lies_in, passing, row_views,
    tree_rows, RowView, TreeRow,
};
use vstd::prelude::*;

verus! {

/// The list of a torrent's files.
#[derive(Clone, Debug, PartialEq, Eq)]
pub struct FilePane {
    /// the torrent, once it is known
    pub detail: Option<TorrentDetail>,
    /// how many bytes of each file are there
    pub done: Vec<i64>,
    /// the paths of the files in lowercase
    pub paths_lc: Vec<String>,
    /// what the list is filtered by; the tree is shown where this is empty
    pub filter: String,
    pub filter_lc: String,
    /// the files that the filter lets through
    pub matches: Vec<usize>,
    pub collapsed: NameSet,
    pub selection: Selection,
}

/// The list of a torrent's files as plain values. What is only kept at hand, the texts in
/// lowercase and the matches, is left out: `wf` says what it is.
pub struct FilesView {
    pub detail: Option<TorrentDetail>,
    pub done: Seq<i64>,
    pub filter: Seq<char>,
    pub collapsed: Set<Seq<char>>,
    pub selection: Selection,
}

impl View for FilePane {
    type V = FilesView;

    open spec fn view(&self) -> FilesView {
        FilesView {
            detail: self.detail,
            done: self.done@,
            filter: self.filter@,
            collapsed: self.collapsed.set(),
            selection: self.selection,
        }
    }
}

/// The files of a torrent that is known.
pub open spec fn files_of(detail: Option<TorrentDetail>) -> Seq<FileInfo> {
    match detail {
        Some(d) => d.files@,
        None => Seq::empty(),
    }
}

/// The paths of the files in lowercase.
pub open spec fn lower_paths(files: Seq<FileInfo>) -> Seq<Seq<char>> {
    files.map_values(|f: FileInfo| lowercase(f.path@))
}

/// The files that the filter lets through; an empty filter has no such list.
pub open spec fn matching(v: FilesView) -> Seq<usize> {
    if v.filter.len() == 0 {
        Seq::empty()
    } else {
        let paths = lower_paths(files_of(v.detail));
        passing(paths, lowercase(v.filter), paths.len() as int)
    }
}

/// The rows on screen.
pub open spec fn rows_of(v: FilesView) -> Seq<RowView> {
    match v.detail {
        None => Seq::empty(),
        Some(d) => if v.filter.len() == 0 {
            tree_rows(d.files@, v.done, v.collapsed)
        } else {
            let found = matching(v);
            Seq::new(found.len(), |k: int| flat_row(d.files@, v.done, found[k] as int))
        },
    }
}

/// The selected row.
pub open spec fn selected_of(v: FilesView) -> Option<RowView> {
    match v.selection.selected {
        Some(i) if i < rows_of(v).len() => Some(rows_of(v)[i as int]),
        _ => None,
    }
}

/// The positions of the files among the first `n` that lie in the folder.
pub open spec fn inside(files: Seq<FileInfo>, folder: Seq<char>, n: int) -> Seq<usize>
    decreases n,
{
    if n <= 0 {
        Seq::empty()
    } else if lies_in(files[n - 1].path@, folder) {
        inside(files, folder, n - 1).push((n - 1) as usize)
    } else {
        inside(files, folder, n - 1)
    }
}

/// The files that a row stands for: a file itself, or all that lie in a folder.
pub open spec fn row_files(files: Seq<FileInfo>, row: RowView) -> Seq<usize> {
    if row.is_folder {
        inside(files, row.path, files.len() as int)
    } else {
        match row.file_index {
            Some(i) => seq![i],
            None => Seq::empty(),
        }
    }
}

/// The files that the selected row stands for.
pub open spec fn target_files(v: FilesView) -> Seq<usize> {
    match selected_of(v) {
        Some(row) => row_files(files_of(v.detail), row),
        None => Seq::empty(),
    }
}

/// The list after another filter was entered.
pub open spec fn refiltered(v: FilesView, filter: Seq<char>) -> FilesView {
    FilesView { filter, selection: v.selection.with(Some(0)), ..v }
}

/// The list after moving the selection.
pub open spec fn stepped(v: FilesView, delta: int) -> FilesView {
    FilesView {
        selection: v.selection.with(moved(v.selection.selected, rows_of(v).len() as int, delta)),
        ..v
    }
}

/// The list after collapsing or expanding the selected folder; a filtered list has none.
pub open spec fn folded(v: FilesView, collapse: bool) -> FilesView {
    if v.filter.len() > 0 {
        v
    } else {
        match selected_of(v) {
            Some(row) if row.is_folder => FilesView {
                collapsed: if collapse {
                    v.collapsed.insert(row.path)
                } else {
                    v.collapsed.remove(row.path)
                },
                ..v
            },
            _ => v,
        }
    }
}

/// The paths of the files that the filter lets through.
pub open spec fn matching_paths(v: FilesView) -> Seq<Seq<char>> {
    matching(v).map_values(|i: usize| files_of(v.detail)[i as int].path@)
}

/// What the filter completes to: the start that all paths share which it lets through, where
/// that is longer.
pub open spec fn completed_filter(v: FilesView) -> Option<Seq<char>> {
    if matching(v).len() == 0 {
        None
    } else {
        let prefix = common_prefix(matching_paths(v));
        if prefix.len() > v.filter.len() {
            Some(prefix)
        } else {
            None
        }
    }
}

/// The list after completing the filter.
pub open spec fn filter_completed(v: FilesView) -> FilesView {
    match completed_filter(v) {
        Some(filter) => refiltered(v, filter),
        None => v,
    }
}

/// The paths of the files in lowercase.
fn lowercase_paths(files: &Vec<FileInfo>) -> (r: Vec<String>)
    ensures
        texts(r@) == lower_paths(files@),
{
    let mut out: Vec<String> = Vec::new();
    let mut i: usize = 0;
    while i < files.len()
        invariant
            i <= files@.len(),
            out@.len() == i,
            forall|j: int| 0 <= j < i ==> (#[trigger] out@[j])@ == lowercase(files@[j].path@),
        decreases files@.len() - i,
    {
        out.push(files[i].path.as_str().to_lowercase());
        i = i + 1;
    }
    assert(texts(out@) =~= lower_paths(files@));
    out
}

/// The positions of the files that lie in the folder.
fn files_inside(files: &Vec<FileInfo>, folder: &str) -> (r: Vec<usize>)
    ensures
        r@ == inside(files@, folder@, files@.len() as int),
{
    let prefix = concat2(folder, "/");
    let mut out: Vec<usize> = Vec::new();
    let mut i: usize = 0;
    assert(out@ =~= Seq::<usize>::empty());
    while i < files.len()
        invariant
            i <= files@.len(),
            prefix@ == folder@ + "/"@,
            out@ == inside(files@, folder@, i as int),
        decreases files@.len() - i,
    {
        let path = files[i].path.as_str();
        if same(path, folder) || starts_with(path, prefix.as_str()) {
            out.push(i);
        }
        i = i + 1;
    }
    out
}

impl FilePane {
    /// The lists that are derived from the files and the filter are up to date.
    pub open spec fn wf(&self) -> bool {
        &&& self.collapsed.wf()
        &&& self.done@.len() == files_of(self.detail).len()
        &&& texts(self.paths_lc@) == lower_paths(files_of(self.detail))
        &&& self.filter_lc@ == lowercase(self.filter@)
        &&& self.matches@ == matching(self@)
        &&& forall|k: int|
            0 <= k < self.matches@.len() ==> #[trigger] self.matches@[k] < files_of(
                self.detail,
            ).len()
    }

    /// The list before any torrent is known.
    pub fn new(selection: Selection) -> (r: FilePane)
        ensures
            r.wf(),
            r@ == (FilesView {
                detail: None,
                done: Seq::empty(),
                filter: Seq::empty(),
                collapsed: Set::empty(),
                selection,
            }),
    {
        let filter = String::new();
        let filter_lc = filter.as_str().to_lowercase();
        let r = FilePane {
            detail: None,
            done: Vec::new(),
            paths_lc: Vec::new(),
            filter,
            filter_lc,
            matches: Vec::new(),
            collapsed: NameSet::new(),
            selection,
        };
        proof {
            assert(r@.filter =~= Seq::<char>::empty());
            assert(r@.done =~= Seq::<i64>::empty());
            assert(r@.collapsed =~= Set::<Seq<char>>::empty());
            assert(texts(r.paths_lc@) =~= lower_paths(files_of(r.detail)));
            assert(r.matches@ =~= matching(r@));
        }
        r
    }

    /// Brings the matches up to date.
    fn rebuild_content_matches(&mut self)
        requires
            texts(old(self).paths_lc@) == lower_paths(files_of(old(self).detail)),
            old(self).filter_lc@ == lowercase(old(self).filter@),
        ensures
            final(self)@ == old(self)@,
            final(self).collapsed == old(self).collapsed,
            final(self).paths_lc == old(self).paths_lc,
            final(self).filter_lc == old(self).filter_lc,
            final(self).matches@ == matching(old(self)@),
            forall|k: int|
                0 <= k < final(self).matches@.len() ==> #[trigger] final(self).matches@[k]
                    < files_of(old(self).detail).len(),
    {
        if is_empty(self.filter.as_str()) {
            self.matches = Vec::new();
            assert(self.matches@ =~= Seq::<usize>::empty());
            return;
        }
        self.matches = filter_paths(&self.paths_lc, self.filter_lc.as_str());
        assert(texts(self.paths_lc@).len() == self.paths_lc@.len());
    }

    /// Takes up a torrent's files as they are now.
    pub fn load(&mut self, detail: TorrentDetail, done: Vec<i64>)
        requires
            old(self).wf(),
            done@.len() == detail.files@.len(),
        ensures
            final(self).wf(),
            final(self)@ == (FilesView { detail: Some(detail), done: done@, ..old(self)@ }),
    {
        self.paths_lc = lowercase_paths(&detail.files);
        self.detail = Some(detail);
        self.done = done;
        self.rebuild_content_matches();
    }

    /// Forgets the torrent.
    pub fn clear(&mut self)
        requires
            old(self).wf(),
        ensures
            final(self).wf(),
            final(self)@ == (FilesView { detail: None, done: Seq::empty(), ..old(self)@ }),
    {
        self.detail = None;
        self.done = Vec::new();
        self.paths_lc = Vec::new();
        self.matches = Vec::new();
        proof {
            assert(self@.done =~= Seq::<i64>::empty());
            assert(texts(self.paths_lc@) =~= lower_paths(files_of(self.detail)));
            assert(self.matches@ =~= matching(self@));
        }
    }

    /// Filters the list by another text.
    pub fn set_filter(&mut self, filter: String)
        requires
            old(self).wf(),
        ensures
            final(self).wf(),
            final(self)@ == refiltered(old(self)@, filter@),
    {
        self.filter_lc = filter.as_str().to_lowercase();
        self.filter = filter;
        self.rebuild_content_matches();
        self.selection.select(Some(0));
    }

    /// The rows on screen.
    pub fn rows(&self) -> (r: Vec<TreeRow>)
        requires
            self.wf(),
        ensures
            row_views(r@) == rows_of(self@),
    {
        match &self.detail {
            None => {
                let r: Vec<TreeRow> = Vec::new();
                assert(row_views(r@) =~= rows_of(self@));
                r
            },
            Some(detail) => if is_empty(self.filter.as_str()) {
                build_tree_rows(&detail.files, &self.done, &self.collapsed)
            } else {
                let r = filter_content_rows(&detail.files, &self.done, &self.matches);
                assert(row_views(r@) =~= rows_of(self@));
                r
            },
        }
    }

    /// How many rows there are.
    pub fn row_count(&self) -> (r: usize)
        requires
            self.wf(),
        ensures
            r == rows_of(self@).len(),
    {
        if self.detail.is_none() {
            0
        } else if is_empty(self.filter.as_str()) {
            let rows = self.rows();
            assert(row_views(rows@).len() == rows@.len());
            rows.len()
        } else {
            self.matches.len()
        }
    }

    /// The selected row.
    pub fn selected_row(&self) -> (r: Option<TreeRow>)
        requires
            self.wf(),
        ensures
            r is Some <==> selected_of(self@) is Some,
            r matches Some(row) ==> selected_of(self@) == Some(row@),
    {
        let rows = self.rows();
        assert(row_views(rows@).len() == rows@.len());
        match self.selection.selected {
            Some(i) => if i < rows.len() {
                let row = &rows[i];
                assert(row_views(rows@)[i as int] == rows@[i as int]@);
                Some(
                    TreeRow {
                        indent: row.indent,
                        label: row.label.clone(),
                        full_path: row.full_path.clone(),
                        is_folder: row.is_folder,
                        file_index: row.file_index,
                        total_size: row.total_size,
                        total_done: row.total_done,
                        priority: row.priority,
                        is_mixed: row.is_mixed,
                    },
                )
            } else {
                None
            },
            None => None,
        }
    }

    /// Moves the selection.
    pub fn move_by(&mut self, delta: isize)
        requires
            old(self).wf(),
        ensures
            final(self).wf(),
            final(self)@ == stepped(old(self)@, delta as int),
    {
        let count: usize = self.row_count();
        self.selection.move_by(count, delta);
    }

    /// Collapses or expands the selected folder.
    pub fn fold(&mut self, collapse: bool)
        requires
            old(self).wf(),
        ensures
            final(self).wf(),
            final(self)@ == folded(old(self)@, collapse),
    {
        if !is_empty(self.filter.as_str()) {
            return;
        }
        let row = match self.selected_row() {
            Some(row) => row,
            None => {
                return;
            },
        };
        if !row.is_folder {
            return;
        }
        let ghost before = self.collapsed;
        let ghost path = row.full_path@;
        if collapse {
            self.collapsed.insert(row.full_path.as_str());
            proof {
                assert forall|n: Seq<char>| self.collapsed.set().contains(n) == before.set().insert(
                    path,
                ).contains(n) by {
                    assert(self.collapsed.has(n) <==> (before.has(n) || n == path));
                }
                assert(self.collapsed.set() =~= before.set().insert(path));
            }
        } else {
            self.collapsed.remove(row.full_path.as_str());
            proof {
                assert forall|n: Seq<char>| self.collapsed.set().contains(n) == before.set().remove(
                    path,
                ).contains(n) by {
                    assert(self.collapsed.has(n) <==> (before.has(n) && n != path));
                }
                assert(self.collapsed.set() =~= before.set().remove(path));
            }
        }
    }

    /// The files that the selected row stands for.
    pub fn targets(&self) -> (r: Vec<usize>)
        requires
            self.wf(),
        ensures
            r@ == target_files(self@),
    {
        let mut none: Vec<usize> = Vec::new();
        assert(none@ =~= Seq::<usize>::empty());
        let detail = match &self.detail {
            Some(detail) => detail,
            None => {
                return none;
            },
        };
        match self.selected_row() {
            None => none,
            Some(row) => if row.is_folder {
                files_inside(&detail.files, row.full_path.as_str())
            } else {
                if let Some(i) = row.file_index {
                    none.push(i);
                    assert(none@ =~= seq![i]);
                }
                none
            },
        }
    }

    /// Completes the filter; tells whether it has changed.
    pub fn tab_complete_content_filter(&mut self) -> (r: bool)
        requires
            old(self).wf(),
        ensures
            final(self).wf(),
            final(self)@ == filter_completed(old(self)@),
            r == (completed_filter(old(self)@) is Some),
    {
        if self.matches.len() == 0 {
            return false;
        }
        let detail = match &self.detail {
            Some(detail) => detail,
            None => {
                return false;
            },
        };
        let mut paths: Vec<String> = Vec::new();
        let mut k: usize = 0;
        while k < self.matches.len()
            invariant
                k <= self.matches@.len(),
                paths@.len() == k,
                self.detail == Some(*detail),
                forall|k: int|
                    0 <= k < self.matches@.len() ==> #[trigger] self.matches@[k]
                        < detail.files@.len(),
                forall|j: int|
                    0 <= j < k ==> (#[trigger] paths@[j])@
                        == detail.files@[self.matches@[j] as int].path@,
            decreases self.matches@.len() - k,
        {
            let i: usize = self.matches[k];
            paths.push(detail.files[i].path.clone());
            k = k + 1;
        }
        assert(texts(paths@) =~= matching_paths(self@));
        let prefix = common_prefix_of(&paths);
        let own: usize = chars_of(self.filter.as_str()).len();
        let new: usize = chars_of(prefix.as_str()).len();
        if new > own {
            self.set_filter(prefix);
            return true;
        }
        false
    }
}

// ----- laws -----

/// The files that a filter lets through are files of the torrent.
pub proof fn law_matches_are_files(v: FilesView, k: int)
    requires
        0 <= k < matching(v).len(),
    ensures
        matching(v)[k] < files_of(v.detail).len(),
{
    let paths = lower_paths(files_of(v.detail));
    if let Some(d) = v.detail {
        assert(d.files@.len() == d.files.len());
    }
    lemma_passing_below(paths, lowercase(v.filter), paths.len() as int, k);
}

/// The positions that pass are below the bound.
proof fn lemma_passing_below(paths: Seq<Seq<char>>, filter: Seq<char>, n: int, k: int)
    requires
        n <= paths.len(),
        paths.len() <= usize::MAX,
        0 <= k < passing(paths, filter, n).len(),
    ensures
        passing(paths, filter, n)[k] < n,
    decreases n,
{
    if n > 0 {
        let before = passing(paths, filter, n - 1);
        if k < before.len() {
            lemma_passing_below(paths, filter, n - 1, k);
        }
    }
}

} // verus!
