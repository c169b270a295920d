//! The files of a torrent as a tree.

use crate::ipc::FileInfo;
use crate::names::{lemma_ordered_unique, ordered, NameSet};
use crate::paths::{
    lemma_parent_is_shorter, name_of, parent_of, path_name, path_parent, path_segments, segments_of,
};
use crate::text::{
    chars_of, concat2, contains, has_prefix, is_before, is_empty, join, lemma_join_split,
    lemma_precedes_irreflexive, lemma_precedes_total, lemma_precedes_transitive,
    lemma_split_around, lemma_split_nonempty, occurs, occurs_at, precedes, same, split, split_on,
    starts_with, texts,
};
use vstd::prelude::*;

verus! {

/// One row of the tree: a folder or a file.
#[derive(Clone, Debug, PartialEq, Eq)]
pub struct TreeRow {
    pub indent: usize,
    pub label: String,
    pub full_path: String,
    pub is_folder: bool,
    /// the file, for rows of files
    pub file_index: Option<usize>,
    pub total_size: i64,
    pub total_done: i64,
    /// of a file its priority; of a folder the priority that all files in it share
    pub priority: Option<u8>,
    /// whether the files of a folder have different priorities
    pub is_mixed: bool,
}

/// One row of the tree as plain values.
pub struct RowView {
    pub indent: int,
    pub label: Seq<char>,
    pub path: Seq<char>,
    pub is_folder: bool,
    pub file_index: Option<usize>,
    pub size: i64,
    pub done: i64,
    pub priority: Option<u8>,
    pub mixed: bool,
}

impl View for TreeRow {
    type V = RowView;

    open spec fn view(&self) -> RowView {
        RowView {
            indent: self.indent as int,
            label: self.label@,
            path: self.full_path@,
            is_folder: self.is_folder,
            file_index: self.file_index,
            size: self.total_size,
            done: self.total_done,
            priority: self.priority,
            mixed: self.is_mixed,
        }
    }
}

/// The rows as plain values.
pub open spec fn row_views(rows: Seq<TreeRow>) -> Seq<RowView> {
    rows.map_values(|r: TreeRow| r@)
}

// ----- folders -----

/// The folder that a file lies in, empty at the top.
pub open spec fn folder_of(path: Seq<char>) -> Seq<char> {
    match path_parent(path) {
        Some(folder) => folder,
        None => Seq::empty(),
    }
}

/// The folder that the first `k` segments lead to.
pub open spec fn chain(segments: Seq<Seq<char>>, k: int) -> Seq<char> {
    join(segments.take(k), "/"@)
}

/// A folder that the file lies in, at some depth.
pub open spec fn is_ancestor(path: Seq<char>, folder: Seq<char>) -> bool {
    let segments = segments_of(folder_of(path));
    exists|k: int| 0 < k <= segments.len() && folder == #[trigger] chain(segments, k)
}

/// A folder that one of the first `n` files lies in.
pub open spec fn tree_folder(files: Seq<FileInfo>, n: int, folder: Seq<char>) -> bool {
    exists|i: int| 0 <= i < n && is_ancestor((#[trigger] files[i]).path@, folder)
}

/// The file lies in a folder that is collapsed.
pub open spec fn hidden_file(path: Seq<char>, collapsed: Set<Seq<char>>) -> bool {
    exists|f: Seq<char>| #[trigger] collapsed.contains(f) && is_ancestor(path, f)
}

/// The folder lies in another one that is collapsed.
pub open spec fn hidden_folder(folder: Seq<char>, collapsed: Set<Seq<char>>) -> bool {
    let parts = split(folder, '/');
    exists|k: int| 0 < k < parts.len() && collapsed.contains(#[trigger] chain(parts, k))
}

/// The file is the folder, or lies in it.
pub open spec fn lies_in(path: Seq<char>, folder: Seq<char>) -> bool {
    path == folder || has_prefix(path, folder + "/"@)
}

/// The bytes of the first `n` files in the folder.
pub open spec fn folder_size(files: Seq<FileInfo>, folder: Seq<char>, n: int) -> int
    decreases n,
{
    if n <= 0 {
        0
    } else {
        folder_size(files, folder, n - 1) + (if lies_in(files[n - 1].path@, folder) {
            files[n - 1].size as int
        } else {
            0
        })
    }
}

/// The bytes done of the first `n` files in the folder.
pub open spec fn folder_done(files: Seq<FileInfo>, done: Seq<i64>, folder: Seq<char>, n: int) -> int
    decreases n,
{
    if n <= 0 {
        0
    } else {
        folder_done(files, done, folder, n - 1) + (if lies_in(files[n - 1].path@, folder) {
            done[n - 1] as int
        } else {
            0
        })
    }
}

/// The files of a folder have priorities: none, one that all share, or different ones.
pub enum Shared {
    Empty,
    Same(u8),
    Mixed,
}

/// The priorities of the first `n` files in the folder.
pub open spec fn folder_priority(files: Seq<FileInfo>, folder: Seq<char>, n: int) -> Shared
    decreases n,
{
    if n <= 0 {
        Shared::Empty
    } else {
        let before = folder_priority(files, folder, n - 1);
        if !lies_in(files[n - 1].path@, folder) {
            before
        } else {
            match before {
                Shared::Empty => Shared::Same(files[n - 1].priority),
                Shared::Same(p) => if p == files[n - 1].priority {
                    before
                } else {
                    Shared::Mixed
                },
                Shared::Mixed => before,
            }
        }
    }
}

/// How often the character occurs.
pub open spec fn occurrences(s: Seq<char>, c: char) -> int
    decreases s.len(),
{
    if s.len() == 0 {
        0
    } else {
        occurrences(s.drop_last(), c) + (if s.last() == c {
            1int
        } else {
            0int
        })
    }
}

/// The row of a folder.
pub open spec fn folder_row(
    files: Seq<FileInfo>,
    done: Seq<i64>,
    collapsed: Set<Seq<char>>,
    folder: Seq<char>,
) -> RowView {
    let n = files.len() as int;
    let shared = folder_priority(files, folder, n);
    RowView {
        indent: occurrences(folder, '/'),
        label: (if collapsed.contains(folder) {
            "\u{25b8} "@
        } else {
            "\u{25be} "@
        }) + split(folder, '/').last(),
        path: folder,
        is_folder: true,
        file_index: None,
        size: folder_size(files, folder, n) as i64,
        done: folder_done(files, done, folder, n) as i64,
        priority: match shared {
            Shared::Same(p) => Some(p),
            _ => None,
        },
        mixed: shared is Mixed,
    }
}

/// The rows of the folders that are not hidden, among the first `n`.
pub open spec fn folder_rows(
    files: Seq<FileInfo>,
    done: Seq<i64>,
    collapsed: Set<Seq<char>>,
    folders: Seq<Seq<char>>,
    n: int,
) -> Seq<RowView>
    decreases n,
{
    if n <= 0 {
        Seq::empty()
    } else {
        let before = folder_rows(files, done, collapsed, folders, n - 1);
        if hidden_folder(folders[n - 1], collapsed) {
            before
        } else {
            before.push(folder_row(files, done, collapsed, folders[n - 1]))
        }
    }
}

/// The row of a file.
pub open spec fn file_row(files: Seq<FileInfo>, done: Seq<i64>, i: int) -> RowView {
    let path = files[i].path@;
    let folder = folder_of(path);
    RowView {
        indent: if folder.len() == 0 {
            0
        } else {
            occurrences(folder, '/') + 1
        },
        label: match path_name(path) {
            Some(name) => name,
            None => path,
        },
        path,
        is_folder: false,
        file_index: Some(i as usize),
        size: files[i].size,
        done: done[i],
        priority: Some(files[i].priority),
        mixed: false,
    }
}

/// The rows of the files that are not hidden, among the first `n`.
pub open spec fn file_rows(
    files: Seq<FileInfo>,
    done: Seq<i64>,
    collapsed: Set<Seq<char>>,
    n: int,
) -> Seq<RowView>
    decreases n,
{
    if n <= 0 {
        Seq::empty()
    } else {
        let before = file_rows(files, done, collapsed, n - 1);
        if hidden_file(files[n - 1].path@, collapsed) {
            before
        } else {
            before.push(file_row(files, done, n - 1))
        }
    }
}

// ----- order -----

/// The row comes before the other: by path, and a folder before a file of the same path.
pub open spec fn row_before(a: RowView, b: RowView) -> bool {
    precedes(a.path, b.path) || (a.path == b.path && a.is_folder && !b.is_folder)
}

/// The rows with one more put behind all that do not come after it.
pub open spec fn row_inserted(rows: Seq<RowView>, r: RowView) -> Seq<RowView>
    decreases rows.len(),
{
    if rows.len() == 0 || !row_before(r, rows.last()) {
        rows.push(r)
    } else {
        row_inserted(rows.drop_last(), r).push(rows.last())
    }
}

/// The rows in order; rows that neither comes before the other stay as they were.
pub open spec fn rows_sorted(rows: Seq<RowView>) -> Seq<RowView>
    decreases rows.len(),
{
    if rows.len() == 0 {
        rows
    } else {
        row_inserted(rows_sorted(rows.drop_last()), rows.last())
    }
}

/// Where a row is put.
proof fn lemma_row_inserted(rows: Seq<RowView>, r: RowView, k: int)
    requires
        0 <= k <= rows.len(),
        forall|j: int| k <= j < rows.len() ==> row_before(r, #[trigger] rows[j]),
        k > 0 ==> !row_before(r, rows[k - 1]),
    ensures
        row_inserted(rows, r) == rows.insert(k, r),
    decreases rows.len(),
{
    if k == rows.len() {
        if rows.len() > 0 {
            assert(rows.last() == rows[k - 1]);
        }
        assert(rows.insert(k, r) =~= rows.push(r));
    } else {
        assert(row_before(r, rows[rows.len() - 1]));
        let init = rows.drop_last();
        assert forall|j: int| k <= j < init.len() implies row_before(r, #[trigger] init[j]) by {
            assert(init[j] == rows[j]);
        }
        lemma_row_inserted(init, r, k);
        assert(init.insert(k, r).push(rows.last()) =~= rows.insert(k, r));
    }
}

/// Whether the row comes before the other.
fn comes_before(a: &TreeRow, b: &TreeRow) -> (r: bool)
    ensures
        r == row_before(a@, b@),
{
    is_before(a.full_path.as_str(), b.full_path.as_str()) || (same(
        a.full_path.as_str(),
        b.full_path.as_str(),
    ) && a.is_folder && !b.is_folder)
}

/// Puts a row into rows that are in order.
fn insert_row(rows: Vec<TreeRow>, row: TreeRow) -> (out: Vec<TreeRow>)
    ensures
        row_views(out@) == row_inserted(row_views(rows@), row@),
{
    let mut out = rows;
    let mut k: usize = out.len();
    while k > 0 && comes_before(&row, &out[k - 1])
        invariant
            k <= out@.len(),
            forall|j: int| k <= j < out@.len() ==> row_before(row@, #[trigger] row_views(out@)[j]),
        decreases k,
    {
        assert(row_views(out@)[k - 1] == out@[k - 1]@);
        k = k - 1;
    }
    proof {
        if k > 0 {
            assert(row_views(out@)[k - 1] == out@[k - 1]@);
        }
        lemma_row_inserted(row_views(out@), row@, k as int);
    }
    let ghost before = out@;
    out.insert(k, row);
    assert(row_views(out@) =~= row_views(before).insert(k as int, row@));
    out
}

// ----- building the tree -----

/// The folders of the tree, in order.
pub open spec fn are_tree_folders(files: Seq<FileInfo>, folders: Seq<Seq<char>>) -> bool {
    &&& ordered(folders)
    &&& forall|f: Seq<char>| #[trigger]
        folders.contains(f) <==> tree_folder(files, files.len() as int, f)
}

/// The rows of the tree.
pub open spec fn is_tree(
    rows: Seq<RowView>,
    files: Seq<FileInfo>,
    done: Seq<i64>,
    collapsed: Set<Seq<char>>,
) -> bool {
    exists|folders: Seq<Seq<char>>| #[trigger]
        are_tree_folders(files, folders) && rows == rows_sorted(
            folder_rows(files, done, collapsed, folders, folders.len() as int) + file_rows(
                files,
                done,
                collapsed,
                files.len() as int,
            ),
        )
}

/// The rows of the tree, of which there is one list.
pub open spec fn tree_rows(files: Seq<FileInfo>, done: Seq<i64>, collapsed: Set<Seq<char>>) -> Seq<RowView> {
    choose|rows: Seq<RowView>| is_tree(rows, files, done, collapsed)
}

/// A torrent's files have one tree.
pub proof fn law_tree_is_determined(
    a: Seq<RowView>,
    b: Seq<RowView>,
    files: Seq<FileInfo>,
    done: Seq<i64>,
    collapsed: Set<Seq<char>>,
)
    requires
        is_tree(a, files, done, collapsed),
        is_tree(b, files, done, collapsed),
    ensures
        a == b,
{
    let of = |rows: Seq<RowView>, folders: Seq<Seq<char>>|
        are_tree_folders(files, folders) && rows == rows_sorted(
            folder_rows(files, done, collapsed, folders, folders.len() as int) + file_rows(
                files,
                done,
                collapsed,
                files.len() as int,
            ),
        );
    let fa = choose|folders: Seq<Seq<char>>| #[trigger]
        are_tree_folders(files, folders) && of(a, folders);
    let fb = choose|folders: Seq<Seq<char>>| #[trigger]
        are_tree_folders(files, folders) && of(b, folders);
    assert(of(a, fa));
    assert(of(b, fb));
    assert forall|k: Seq<char>| #[trigger] fa.contains(k) <==> fb.contains(k) by {
        assert(fa.contains(k) <==> tree_folder(files, files.len() as int, k));
        assert(fb.contains(k) <==> tree_folder(files, files.len() as int, k));
    }
    lemma_ordered_unique(fa, fb);
}

/// The folder that a file lies in, empty at the top.
fn folder_text(path: &str) -> (r: String)
    ensures
        r@ == folder_of(path@),
{
    match parent_of(path) {
        Some(folder) => folder,
        None => {
            let none = String::new();
            assert(none@ =~= folder_of(path@));
            none
        },
    }
}

/// A longer chain is the shorter one and a segment.
proof fn lemma_chain_step(segments: Seq<Seq<char>>, k: int)
    requires
        0 <= k < segments.len(),
    ensures
        chain(segments, k + 1) == (if k == 0 {
            segments[0]
        } else {
            chain(segments, k) + "/"@ + segments[k]
        }),
{
    let longer = segments.take(k + 1);
    assert(longer.drop_last() =~= segments.take(k));
    assert(longer.last() == segments[k]);
}

/// Adds the folders that a file lies in.
fn add_folders(folders: NameSet, path: &str) -> (r: NameSet)
    requires
        folders.wf(),
    ensures
        r.wf(),
        forall|f: Seq<char>| #[trigger] r.has(f) <==> (folders.has(f) || is_ancestor(path@, f)),
{
    let folder = folder_text(path);
    let segments = path_segments(folder.as_str());
    let ghost parts = segments_of(folder_of(path@));
    let ghost start = folders;
    let mut out = folders;
    let mut name = String::new();
    let mut k: usize = 0;
    assert(parts.take(0) =~= Seq::<Seq<char>>::empty());
    assert(name@ =~= chain(parts, 0));
    while k < segments.len()
        invariant
            k <= segments@.len(),
            texts(segments@) == parts,
            name@ == chain(parts, k as int),
            out.wf(),
            forall|f: Seq<char>| #[trigger]
                out.has(f) <==> (start.has(f) || exists|j: int|
                    0 < j <= k && f == #[trigger] chain(parts, j)),
        decreases segments@.len() - k,
    {
        proof {
            lemma_chain_step(parts, k as int);
            assert(parts[k as int] == segments@[k as int]@);
        }
        if k > 0 {
            name.append("/");
        }
        name.append(segments[k].as_str());
        assert(name@ =~= chain(parts, k + 1));
        let ghost before = out;
        out.insert(name.as_str());
        proof {
            assert forall|f: Seq<char>| #[trigger]
                out.has(f) <==> (start.has(f) || exists|j: int|
                    0 < j <= k + 1 && f == #[trigger] chain(parts, j)) by {
                if f == chain(parts, k + 1) {
                    assert(0 < k + 1 <= k + 1 && f == chain(parts, k + 1));
                }
                if before.has(f) && !start.has(f) {
                    let j = choose|j: int| 0 < j <= k && f == #[trigger] chain(parts, j);
                    assert(0 < j <= k + 1 && f == chain(parts, j));
                }
                if exists|j: int| 0 < j <= k + 1 && f == #[trigger] chain(parts, j) {
                    let j = choose|j: int| 0 < j <= k + 1 && f == #[trigger] chain(parts, j);
                    if j <= k {
                        assert(before.has(f));
                    }
                }
            }
        }
        k = k + 1;
    }
    out
}

/// The folders of the tree.
fn tree_folders(files: &Vec<FileInfo>) -> (r: NameSet)
    ensures
        r.wf(),
        are_tree_folders(files@, r.list()),
{
    let mut folders = NameSet::new();
    let mut i: usize = 0;
    while i < files.len()
        invariant
            i <= files@.len(),
            folders.wf(),
            forall|f: Seq<char>| #[trigger] folders.has(f) <==> tree_folder(files@, i as int, f),
        decreases files@.len() - i,
    {
        let ghost before = folders;
        folders = add_folders(folders, files[i].path.as_str());
        proof {
            assert forall|f: Seq<char>| #[trigger]
                folders.has(f) <==> tree_folder(files@, i + 1, f) by {
                assert(before.has(f) == tree_folder(files@, i as int, f));
                if tree_folder(files@, i as int, f) {
                    let j = choose|j: int|
                        0 <= j < i && is_ancestor((#[trigger] files@[j]).path@, f);
                    assert(is_ancestor(files@[j].path@, f));
                }
                if is_ancestor(files@[i as int].path@, f) {
                    assert(tree_folder(files@, i + 1, f));
                }
            }
        }
        i = i + 1;
    }
    proof {
        assert forall|f: Seq<char>| #[trigger]
            folders.list().contains(f) <==> tree_folder(files@, files@.len() as int, f) by {
            assert(folders.has(f) == tree_folder(files@, files@.len() as int, f));
        }
    }
    folders
}

/// Whether the file lies in a folder that is collapsed.
fn is_hidden_file(path: &str, collapsed: &NameSet) -> (r: bool)
    requires
        collapsed.wf(),
    ensures
        r == hidden_file(path@, collapsed.set()),
{
    let folder = folder_text(path);
    let segments = path_segments(folder.as_str());
    let ghost parts = segments_of(folder_of(path@));
    let mut name = String::new();
    let mut k: usize = 0;
    assert(parts.take(0) =~= Seq::<Seq<char>>::empty());
    assert(name@ =~= chain(parts, 0));
    while k < segments.len()
        invariant
            k <= segments@.len(),
            parts == segments_of(folder_of(path@)),
            texts(segments@) == parts,
            name@ == chain(parts, k as int),
            collapsed.wf(),
            forall|j: int| 0 < j <= k ==> !collapsed.set().contains(#[trigger] chain(parts, j)),
        decreases segments@.len() - k,
    {
        proof {
            lemma_chain_step(parts, k as int);
            assert(parts[k as int] == segments@[k as int]@);
        }
        if k > 0 {
            name.append("/");
        }
        name.append(segments[k].as_str());
        assert(name@ =~= chain(parts, k + 1));
        if collapsed.contains(name.as_str()) {
            assert(is_ancestor(path@, chain(parts, k + 1)));
            assert(collapsed.set().contains(chain(parts, k + 1)));
            return true;
        }
        k = k + 1;
    }
    false
}

/// Whether the folder lies in another one that is collapsed.
fn is_hidden_folder(folder: &str, collapsed: &NameSet) -> (r: bool)
    requires
        collapsed.wf(),
    ensures
        r == hidden_folder(folder@, collapsed.set()),
{
    let segments = split_on(folder, '/');
    let ghost parts = split(folder@, '/');
    let mut name = String::new();
    let mut k: usize = 0;
    assert(parts.take(0) =~= Seq::<Seq<char>>::empty());
    assert(name@ =~= chain(parts, 0));
    let last: usize = segments.len() - 1;
    while k < last
        invariant
            k <= last,
            last + 1 == segments@.len(),
            parts == split(folder@, '/'),
            texts(segments@) == parts,
            name@ == chain(parts, k as int),
            collapsed.wf(),
            forall|j: int| 0 < j <= k ==> !collapsed.set().contains(#[trigger] chain(parts, j)),
        decreases last - k,
    {
        proof {
            lemma_chain_step(parts, k as int);
            assert(parts[k as int] == segments@[k as int]@);
        }
        if k > 0 {
            name.append("/");
        }
        name.append(segments[k].as_str());
        assert(name@ =~= chain(parts, k + 1));
        if collapsed.contains(name.as_str()) {
            assert(0 < k + 1 < parts.len() && collapsed.set().contains(chain(parts, k + 1)));
            return true;
        }
        k = k + 1;
    }
    false
}

/// How often the character occurs.
fn count_char(s: &str, c: char) -> (r: usize)
    ensures
        r == occurrences(s@, c),
        r <= s@.len(),
{
    let v = chars_of(s);
    let mut count: usize = 0;
    let mut i: usize = 0;
    assert(v@.take(0) =~= Seq::<char>::empty());
    while i < v.len()
        invariant
            i <= v@.len(),
            count == occurrences(v@.take(i as int), c),
            count <= i,
        decreases v@.len() - i,
    {
        assert(v@.take(i as int + 1).drop_last() =~= v@.take(i as int));
        if v[i] == c {
            count = count + 1;
        }
        i = i + 1;
    }
    assert(v@.take(v@.len() as int) =~= v@);
    count
}

/// Whether the file is the folder, or lies in it; `inside` is the folder with a slash.
fn is_inside(path: &str, folder: &str, inside: &str) -> (r: bool)
    requires
        inside@ == folder@ + "/"@,
    ensures
        r == lies_in(path@, folder@),
{
    same(path, folder) || starts_with(path, inside)
}

/// The row of a folder.
fn make_folder_row(files: &Vec<FileInfo>, done: &Vec<i64>, collapsed: &NameSet, folder: &str) -> (r:
    TreeRow)
    requires
        collapsed.wf(),
        done@.len() == files@.len(),
    ensures
        r@ == folder_row(files@, done@, collapsed.set(), folder@),
{
    let inside = concat2(folder, "/");
    let mut size: i128 = 0;
    let mut finished: i128 = 0;
    let mut priority: Option<u8> = None;
    let mut mixed = false;
    let mut i: usize = 0;
    while i < files.len()
        invariant
            i <= files@.len(),
            done@.len() == files@.len(),
            inside@ == folder@ + "/"@,
            size == folder_size(files@, folder@, i as int),
            finished == folder_done(files@, done@, folder@, i as int),
            -(i * 0x8000_0000_0000_0000) <= size <= i * 0x8000_0000_0000_0000,
            -(i * 0x8000_0000_0000_0000) <= finished <= i * 0x8000_0000_0000_0000,
            i <= usize::MAX,
            match folder_priority(files@, folder@, i as int) {
                Shared::Empty => priority is None && !mixed,
                Shared::Same(p) => priority == Some(p) && !mixed,
                Shared::Mixed => priority is None && mixed,
            },
        decreases files@.len() - i,
    {
        let file = &files[i];
        if is_inside(file.path.as_str(), folder, inside.as_str()) {
            size = size + file.size as i128;
            finished = finished + done[i] as i128;
            if !mixed {
                match priority {
                    None => {
                        priority = Some(file.priority);
                    },
                    Some(p) => {
                        if p != file.priority {
                            priority = None;
                            mixed = true;
                        }
                    },
                }
            }
        }
        i = i + 1;
    }
    let parts = split_on(folder, '/');
    assert(texts(parts@).last() == parts@[parts@.len() - 1]@);
    let mark = if collapsed.contains(folder) { "\u{25b8} " } else { "\u{25be} " };
    TreeRow {
        indent: count_char(folder, '/'),
        label: concat2(mark, parts[parts.len() - 1].as_str()),
        full_path: folder.to_owned(),
        is_folder: true,
        file_index: None,
        total_size: #[verifier::truncate]
        (size as i64),
        total_done: #[verifier::truncate]
        (finished as i64),
        priority,
        is_mixed: mixed,
    }
}

/// The row of a file.
fn make_file_row(files: &Vec<FileInfo>, done: &Vec<i64>, i: usize) -> (r: TreeRow)
    requires
        done@.len() == files@.len(),
        i < files@.len(),
    ensures
        r@ == file_row(files@, done@, i as int),
{
    let file = &files[i];
    let path = file.path.as_str();
    let folder = folder_text(path);
    let slashes: usize = count_char(folder.as_str(), '/');
    let length: usize = folder.as_str().unicode_len();
    let total: usize = path.unicode_len();
    proof {
        lemma_parent_is_shorter(path@);
        assert(length > 0 ==> length < total);
    }
    let indent: usize = if length == 0 { 0 } else { slashes + 1 };
    let label = match name_of(path) {
        Some(name) => name,
        None => path.to_owned(),
    };
    TreeRow {
        indent,
        label,
        full_path: path.to_owned(),
        is_folder: false,
        file_index: Some(i),
        total_size: file.size,
        total_done: done[i],
        priority: Some(file.priority),
        is_mixed: false,
    }
}

/// Builds the tree of a torrent's files. Folders add up what their files hold; what lies in a
/// collapsed folder is left out. `done` is how many bytes of each file are there.
pub fn build_tree_rows(files: &Vec<FileInfo>, done: &Vec<i64>, collapsed: &NameSet) -> (rows: Vec<
    TreeRow,
>)
    requires
        collapsed.wf(),
        done@.len() == files@.len(),
    ensures
        is_tree(row_views(rows@), files@, done@, collapsed.set()),
        row_views(rows@) == tree_rows(files@, done@, collapsed.set()),
{
    let folders = tree_folders(files);
    let ghost list = folders.list();
    let mut rows: Vec<TreeRow> = Vec::new();
    let ghost mut unsorted: Seq<RowView> = Seq::empty();
    assert(row_views(rows@) =~= Seq::<RowView>::empty());
    let mut k: usize = 0;
    while k < folders.items.len()
        invariant
            k <= folders.items@.len(),
            list == texts(folders.items@),
            collapsed.wf(),
            done@.len() == files@.len(),
            unsorted == folder_rows(files@, done@, collapsed.set(), list, k as int),
            row_views(rows@) == rows_sorted(unsorted),
        decreases folders.items@.len() - k,
    {
        let folder = folders.items[k].as_str();
        assert(list[k as int] == folder@);
        if !is_hidden_folder(folder, collapsed) {
            let row = make_folder_row(files, done, collapsed, folder);
            rows = insert_row(rows, row);
            proof {
                let next = unsorted.push(row@);
                assert(next.drop_last() =~= unsorted);
                unsorted = next;
            }
        }
        k = k + 1;
    }
    let ghost top = unsorted;
    let mut i: usize = 0;
    assert(top + file_rows(files@, done@, collapsed.set(), 0) =~= top);
    while i < files.len()
        invariant
            i <= files@.len(),
            collapsed.wf(),
            done@.len() == files@.len(),
            unsorted == top + file_rows(files@, done@, collapsed.set(), i as int),
            row_views(rows@) == rows_sorted(unsorted),
        decreases files@.len() - i,
    {
        if !is_hidden_file(files[i].path.as_str(), collapsed) {
            let row = make_file_row(files, done, i);
            rows = insert_row(rows, row);
            proof {
                let next = unsorted.push(row@);
                assert(next.drop_last() =~= unsorted);
                assert(next =~= top + file_rows(files@, done@, collapsed.set(), i + 1));
                unsorted = next;
            }
        }
        i = i + 1;
    }
    assert(are_tree_folders(files@, list));
    assert(is_tree(row_views(rows@), files@, done@, collapsed.set()));
    proof {
        law_tree_is_determined(
            row_views(rows@),
            tree_rows(files@, done@, collapsed.set()),
            files@,
            done@,
            collapsed.set(),
        );
    }
    rows
}

// ----- laws -----

/// Inserting a row keeps the others.
proof fn lemma_inserted_contains(rows: Seq<RowView>, r: RowView)
    ensures
        forall|x: RowView| #[trigger] row_inserted(rows, r).contains(x) <==> (rows.contains(x) || x == r),
        row_inserted(rows, r).len() == rows.len() + 1,
    decreases rows.len(),
{
    let out = row_inserted(rows, r);
    if rows.len() == 0 || !row_before(r, rows.last()) {
        assert forall|x: RowView| #[trigger] out.contains(x) <==> (rows.contains(x) || x == r) by {
            if rows.contains(x) {
                assert(out[rows.index_of(x)] == x);
            }
            assert(out[rows.len() as int] == r);
            if out.contains(x) && x != r {
                assert(rows[out.index_of(x)] == x);
            }
        }
    } else {
        let init = rows.drop_last();
        lemma_inserted_contains(init, r);
        let head = row_inserted(init, r);
        assert forall|x: RowView| #[trigger] out.contains(x) <==> (rows.contains(x) || x == r) by {
            assert(out[head.len() as int] == rows.last());
            if head.contains(x) {
                assert(out[head.index_of(x)] == x);
            }
            if init.contains(x) {
                assert(rows[init.index_of(x)] == x);
            }
            if rows.contains(x) {
                let k = rows.index_of(x);
                if k < init.len() {
                    assert(init[k] == x);
                    assert(head.contains(x));
                }
            }
            if out.contains(x) {
                let k = out.index_of(x);
                if k < head.len() {
                    assert(head[k] == x);
                    assert(head.contains(x));
                } else {
                    assert(rows[rows.len() - 1] == x);
                }
            }
        }
    }
}

/// Sorting keeps every row and adds none.
proof fn lemma_sorted_contains(rows: Seq<RowView>)
    ensures
        forall|x: RowView| #[trigger] rows_sorted(rows).contains(x) <==> rows.contains(x),
        rows_sorted(rows).len() == rows.len(),
    decreases rows.len(),
{
    if rows.len() > 0 {
        let init = rows.drop_last();
        lemma_sorted_contains(init);
        lemma_inserted_contains(rows_sorted(init), rows.last());
        assert forall|x: RowView| #[trigger] rows_sorted(rows).contains(x) <==> rows.contains(x) by {
            assert(rows_sorted(init).contains(x) == init.contains(x));
            if init.contains(x) {
                assert(rows[init.index_of(x)] == x);
            }
            if rows.contains(x) && x != rows.last() {
                assert(init[rows.index_of(x)] == x);
            }
            assert(rows[rows.len() - 1] == rows.last());
        }
    }
}

/// The row of a file that is not hidden is among the rows of the files.
proof fn lemma_file_rows_contain(
    files: Seq<FileInfo>,
    done: Seq<i64>,
    collapsed: Set<Seq<char>>,
    n: int,
    i: int,
)
    requires
        0 <= i < n <= files.len(),
        !hidden_file(files[i].path@, collapsed),
    ensures
        file_rows(files, done, collapsed, n).contains(file_row(files, done, i)),
    decreases n,
{
    let all = file_rows(files, done, collapsed, n);
    let before = file_rows(files, done, collapsed, n - 1);
    if i == n - 1 {
        assert(all[all.len() - 1] == file_row(files, done, i));
    } else {
        lemma_file_rows_contain(files, done, collapsed, n - 1, i);
        let k = before.index_of(file_row(files, done, i));
        assert(all[k] == file_row(files, done, i));
    }
}

/// How many of the rows are rows of the file at position `i`.
pub open spec fn rows_of_file(rows: Seq<RowView>, i: int) -> int
    decreases rows.len(),
{
    if rows.len() == 0 {
        0
    } else {
        rows_of_file(rows.drop_last(), i) + (if rows.last().file_index == Some(i as usize) {
            1int
        } else {
            0int
        })
    }
}

/// Sorting keeps the number of rows of a file.
proof fn lemma_sorted_rows_of_file(rows: Seq<RowView>, i: int)
    ensures
        rows_of_file(rows_sorted(rows), i) == rows_of_file(rows, i),
    decreases rows.len(),
{
    if rows.len() > 0 {
        lemma_sorted_rows_of_file(rows.drop_last(), i);
        lemma_inserted_rows_of_file(rows_sorted(rows.drop_last()), rows.last(), i);
        reveal_with_fuel(rows_of_file, 2);
        assert(seq![rows.last()].drop_last() =~= Seq::<RowView>::empty());
    }
}

/// Inserting a row counts that row and no other.
proof fn lemma_inserted_rows_of_file(rows: Seq<RowView>, r: RowView, i: int)
    ensures
        rows_of_file(row_inserted(rows, r), i) == rows_of_file(rows, i) + rows_of_file(seq![r], i),
    decreases rows.len(),
{
    reveal_with_fuel(rows_of_file, 2);
    let out = row_inserted(rows, r);
    assert(seq![r].drop_last() =~= Seq::<RowView>::empty());
    if rows.len() == 0 || !row_before(r, rows.last()) {
        assert(out.drop_last() =~= rows);
    } else {
        lemma_inserted_rows_of_file(rows.drop_last(), r, i);
        assert(out.drop_last() =~= row_inserted(rows.drop_last(), r));
    }
}

/// The rows of a file in two lists of rows are those in the one and those in the other.
proof fn lemma_joined_rows_of_file(a: Seq<RowView>, b: Seq<RowView>, i: int)
    ensures
        rows_of_file(a + b, i) == rows_of_file(a, i) + rows_of_file(b, i),
    decreases b.len(),
{
    if b.len() == 0 {
        assert(a + b =~= a);
    } else {
        lemma_joined_rows_of_file(a, b.drop_last(), i);
        assert((a + b).drop_last() =~= a + b.drop_last());
    }
}

/// Rows that are rows of no file are none of this one.
proof fn lemma_no_rows_of_file(rows: Seq<RowView>, i: int)
    requires
        forall|k: int| 0 <= k < rows.len() ==> (#[trigger] rows[k]).file_index is None,
    ensures
        rows_of_file(rows, i) == 0,
    decreases rows.len(),
{
    if rows.len() > 0 {
        assert(rows[rows.len() - 1].file_index is None);
        let init = rows.drop_last();
        assert forall|k: int| 0 <= k < init.len() implies (#[trigger] init[k]).file_index is None by {
            assert(init[k] == rows[k]);
        }
        lemma_no_rows_of_file(init, i);
    }
}

/// The rows of files hold one row of each file that is not hidden.
proof fn lemma_one_row_of_file(
    files: Seq<FileInfo>,
    done: Seq<i64>,
    collapsed: Set<Seq<char>>,
    n: int,
    i: int,
)
    requires
        0 <= n <= files.len() <= usize::MAX,
        0 <= i < files.len(),
    ensures
        rows_of_file(file_rows(files, done, collapsed, n), i) == (if i < n && !hidden_file(
            files[i].path@,
            collapsed,
        ) {
            1int
        } else {
            0int
        }),
    decreases n,
{
    if n > 0 {
        lemma_one_row_of_file(files, done, collapsed, n - 1, i);
        let before = file_rows(files, done, collapsed, n - 1);
        if !hidden_file(files[n - 1].path@, collapsed) {
            assert(before.push(file_row(files, done, n - 1)).drop_last() =~= before);
        }
    }
}

/// Every file that lies in no collapsed folder has exactly one row in the tree, with its own
/// size, progress and priority.
pub proof fn law_visible_files_are_shown(
    rows: Seq<RowView>,
    files: Seq<FileInfo>,
    done: Seq<i64>,
    collapsed: Set<Seq<char>>,
    i: int,
)
    requires
        is_tree(rows, files, done, collapsed),
        0 <= i < files.len() <= usize::MAX,
        !hidden_file(files[i].path@, collapsed),
    ensures
        rows.contains(file_row(files, done, i)),
        rows_of_file(rows, i) == 1,
{
    let folders = choose|folders: Seq<Seq<char>>| #[trigger]
        are_tree_folders(files, folders) && rows == rows_sorted(
            folder_rows(files, done, collapsed, folders, folders.len() as int) + file_rows(
                files,
                done,
                collapsed,
                files.len() as int,
            ),
        );
    let top = folder_rows(files, done, collapsed, folders, folders.len() as int);
    let leaves = file_rows(files, done, collapsed, files.len() as int);
    lemma_file_rows_contain(files, done, collapsed, files.len() as int, i);
    let r = file_row(files, done, i);
    let k = leaves.index_of(r);
    assert((top + leaves)[top.len() + k] == r);
    lemma_sorted_contains(top + leaves);
    lemma_folder_rows_no_file(files, done, collapsed, folders, folders.len() as int);
    lemma_no_rows_of_file(top, i);
    lemma_one_row_of_file(files, done, collapsed, files.len() as int, i);
    lemma_joined_rows_of_file(top, leaves, i);
    lemma_sorted_rows_of_file(top + leaves, i);
}

/// No folder that lies in a collapsed folder has a row.
pub proof fn law_folders_below_collapsed_ones_are_hidden(
    rows: Seq<RowView>,
    files: Seq<FileInfo>,
    done: Seq<i64>,
    collapsed: Set<Seq<char>>,
    r: RowView,
    folder: Seq<char>,
)
    requires
        is_tree(rows, files, done, collapsed),
        rows.contains(r),
        r.is_folder,
        collapsed.contains(folder),
    ensures
        !has_prefix(r.path, folder + "/"@),
{
    let folders = choose|folders: Seq<Seq<char>>| #[trigger]
        are_tree_folders(files, folders) && rows == rows_sorted(
            folder_rows(files, done, collapsed, folders, folders.len() as int) + file_rows(
                files,
                done,
                collapsed,
                files.len() as int,
            ),
        );
    let top = folder_rows(files, done, collapsed, folders, folders.len() as int);
    let leaves = file_rows(files, done, collapsed, files.len() as int);
    lemma_sorted_contains(top + leaves);
    lemma_folder_rows_shown(files, done, collapsed, folders, folders.len() as int);
    lemma_file_rows_no_folder(files, done, collapsed, files.len() as int);
    assert((top + leaves).contains(r));
    let k = (top + leaves).index_of(r);
    if k < top.len() {
        assert(top[k] == r);
    } else {
        assert(leaves[k - top.len()] == r);
    }
    if has_prefix(r.path, folder + "/"@) {
        reveal_strlit("/");
        let rest = r.path.skip(folder.len() as int + 1);
        assert(folder + "/"@ =~= folder.push('/'));
        assert(r.path =~= folder.push('/') + rest);
        lemma_split_around(folder, '/', rest);
        lemma_split_nonempty(folder, '/');
        lemma_split_nonempty(rest, '/');
        let parts = split(r.path, '/');
        let depth = split(folder, '/').len() as int;
        assert(parts.take(depth) =~= split(folder, '/'));
        lemma_join_split(folder, '/');
        assert("/"@ =~= seq!['/']);
        assert(chain(parts, depth) == folder);
    }
}

/// Rows of folders are rows of folders that are not hidden.
proof fn lemma_folder_rows_shown(
    files: Seq<FileInfo>,
    done: Seq<i64>,
    collapsed: Set<Seq<char>>,
    folders: Seq<Seq<char>>,
    n: int,
)
    ensures
        forall|k: int|
            0 <= k < folder_rows(files, done, collapsed, folders, n).len() ==> !hidden_folder(
                (#[trigger] folder_rows(files, done, collapsed, folders, n)[k]).path,
                collapsed,
            ),
    decreases n,
{
    if n > 0 {
        lemma_folder_rows_shown(files, done, collapsed, folders, n - 1);
        let before = folder_rows(files, done, collapsed, folders, n - 1);
        let all = folder_rows(files, done, collapsed, folders, n);
        assert forall|k: int| 0 <= k < all.len() implies !hidden_folder(
            (#[trigger] all[k]).path,
            collapsed,
        ) by {
            if k < before.len() {
                assert(all[k] == before[k]);
            }
        }
    }
}

/// Rows of files are rows of no folder.
proof fn lemma_file_rows_no_folder(
    files: Seq<FileInfo>,
    done: Seq<i64>,
    collapsed: Set<Seq<char>>,
    n: int,
)
    ensures
        forall|k: int|
            0 <= k < file_rows(files, done, collapsed, n).len() ==> !(#[trigger] file_rows(
                files,
                done,
                collapsed,
                n,
            )[k]).is_folder,
    decreases n,
{
    if n > 0 {
        lemma_file_rows_no_folder(files, done, collapsed, n - 1);
        let before = file_rows(files, done, collapsed, n - 1);
        let all = file_rows(files, done, collapsed, n);
        assert forall|k: int| 0 <= k < all.len() implies !(#[trigger] all[k]).is_folder by {
            if k < before.len() {
                assert(all[k] == before[k]);
            }
        }
    }
}

/// A file in a collapsed folder has no row of its own.
pub proof fn law_collapsed_files_are_hidden(
    rows: Seq<RowView>,
    files: Seq<FileInfo>,
    done: Seq<i64>,
    collapsed: Set<Seq<char>>,
    i: int,
)
    requires
        is_tree(rows, files, done, collapsed),
        0 <= i < files.len() <= usize::MAX,
        hidden_file(files[i].path@, collapsed),
    ensures
        forall|r: RowView| #[trigger] rows.contains(r) ==> r.file_index != Some(i as usize),
{
    let folders = choose|folders: Seq<Seq<char>>| #[trigger]
        are_tree_folders(files, folders) && rows == rows_sorted(
            folder_rows(files, done, collapsed, folders, folders.len() as int) + file_rows(
                files,
                done,
                collapsed,
                files.len() as int,
            ),
        );
    let top = folder_rows(files, done, collapsed, folders, folders.len() as int);
    let leaves = file_rows(files, done, collapsed, files.len() as int);
    lemma_sorted_contains(top + leaves);
    lemma_folder_rows_no_file(files, done, collapsed, folders, folders.len() as int);
    lemma_file_rows_shown(files, done, collapsed, files.len() as int);
    assert forall|r: RowView| #[trigger] rows.contains(r) implies r.file_index != Some(i as usize) by {
        assert((top + leaves).contains(r));
        let k = (top + leaves).index_of(r);
        if k < top.len() {
            assert(top[k] == r);
        } else {
            assert(leaves[k - top.len()] == r);
        }
    }
}

/// Rows of folders are rows of no file.
proof fn lemma_folder_rows_no_file(
    files: Seq<FileInfo>,
    done: Seq<i64>,
    collapsed: Set<Seq<char>>,
    folders: Seq<Seq<char>>,
    n: int,
)
    ensures
        forall|k: int|
            0 <= k < folder_rows(files, done, collapsed, folders, n).len() ==> (
            #[trigger] folder_rows(files, done, collapsed, folders, n)[k]).file_index is None,
    decreases n,
{
    if n > 0 {
        lemma_folder_rows_no_file(files, done, collapsed, folders, n - 1);
        let before = folder_rows(files, done, collapsed, folders, n - 1);
        let all = folder_rows(files, done, collapsed, folders, n);
        assert forall|k: int| 0 <= k < all.len() implies (#[trigger] all[k]).file_index is None by {
            if k < before.len() {
                assert(all[k] == before[k]);
            }
        }
    }
}

/// Rows of files are rows of files that are not hidden.
proof fn lemma_file_rows_shown(
    files: Seq<FileInfo>,
    done: Seq<i64>,
    collapsed: Set<Seq<char>>,
    n: int,
)
    requires
        n <= files.len() <= usize::MAX,
    ensures
        forall|k: int|
            0 <= k < file_rows(files, done, collapsed, n).len() ==> {
                let r = #[trigger] file_rows(files, done, collapsed, n)[k];
                exists|i: int|
                    0 <= i < n && r.file_index == Some(i as usize) && !hidden_file(
                        (#[trigger] files[i]).path@,
                        collapsed,
                    )
            },
    decreases n,
{
    if n > 0 {
        lemma_file_rows_shown(files, done, collapsed, n - 1);
        let before = file_rows(files, done, collapsed, n - 1);
        let all = file_rows(files, done, collapsed, n);
        assert forall|k: int| 0 <= k < all.len() implies ({
            let r = #[trigger] all[k];
            exists|i: int|
                0 <= i < n && r.file_index == Some(i as usize) && !hidden_file(
                    (#[trigger] files[i]).path@,
                    collapsed,
                )
        }) by {
            if k < before.len() {
                assert(all[k] == before[k]);
                let i = choose|i: int|
                    0 <= i < n - 1 && before[k].file_index == Some(i as usize) && !hidden_file(
                        (#[trigger] files[i]).path@,
                        collapsed,
                    );
                assert(!hidden_file(files[i].path@, collapsed));
            } else {
                assert(all[k] == file_row(files, done, n - 1));
                assert(!hidden_file(files[n - 1].path@, collapsed));
            }
        }
    }
}

// ----- filtering -----

/// No row comes before one of an earlier path.
pub open spec fn rows_in_sequence(rows: Seq<RowView>) -> bool {
    forall|i: int, j: int|
        0 <= i < j < rows.len() ==> !precedes((#[trigger] rows[j]).path, (#[trigger] rows[i]).path)
}

/// A row put into rows in sequence leaves them in sequence, and adds nothing but itself.
proof fn lemma_row_inserted_in_sequence(rows: Seq<RowView>, r: RowView)
    requires
        rows_in_sequence(rows),
    ensures
        rows_in_sequence(row_inserted(rows, r)),
        forall|k: int|
            0 <= k < row_inserted(rows, r).len() ==> #[trigger] row_inserted(rows, r)[k] == r
                || rows.contains(row_inserted(rows, r)[k]),
    decreases rows.len(),
{
    let out = row_inserted(rows, r);
    if rows.len() == 0 || !row_before(r, rows.last()) {
        assert forall|k: int| 0 <= k < out.len() implies #[trigger] out[k] == r || rows.contains(
            out[k],
        ) by {
            if k < rows.len() {
                assert(rows[k] == out[k]);
            }
        }
        assert forall|i: int, j: int| 0 <= i < j < out.len() implies !precedes(
            (#[trigger] out[j]).path,
            (#[trigger] out[i]).path,
        ) by {
            if j == rows.len() {
                let last = rows.last();
                if i < rows.len() - 1 {
                    assert(!precedes(last.path, rows[i].path));
                    if precedes(r.path, rows[i].path) {
                        lemma_precedes_total(rows[i].path, last.path);
                        if rows[i].path != last.path {
                            lemma_precedes_transitive(r.path, rows[i].path, last.path);
                        }
                    }
                }
            } else {
                assert(out[i] == rows[i] && out[j] == rows[j]);
            }
        }
    } else {
        let init = rows.drop_last();
        let last = rows.last();
        assert(rows_in_sequence(init)) by {
            assert forall|i: int, j: int| 0 <= i < j < init.len() implies !precedes(
                (#[trigger] init[j]).path,
                (#[trigger] init[i]).path,
            ) by {
                assert(init[i] == rows[i] && init[j] == rows[j]);
            }
        }
        lemma_row_inserted_in_sequence(init, r);
        let head = row_inserted(init, r);
        assert forall|k: int| 0 <= k < out.len() implies #[trigger] out[k] == r || rows.contains(
            out[k],
        ) by {
            if k < head.len() {
                assert(head[k] == out[k]);
                if head[k] != r {
                    let m = init.index_of(head[k]);
                    assert(rows[m] == out[k]);
                }
            } else {
                assert(rows[rows.len() - 1] == out[k]);
            }
        }
        assert forall|i: int, j: int| 0 <= i < j < out.len() implies !precedes(
            (#[trigger] out[j]).path,
            (#[trigger] out[i]).path,
        ) by {
            if j < head.len() {
                assert(out[i] == head[i] && out[j] == head[j]);
            } else {
                assert(out[i] == head[i]);
                if head[i] == r {
                    if precedes(last.path, r.path) {
                        lemma_precedes_irreflexive(r.path);
                        if r.path != last.path {
                            lemma_precedes_transitive(r.path, last.path, r.path);
                        }
                    }
                } else {
                    let m = init.index_of(head[i]);
                    assert(rows[m] == head[i]);
                }
            }
        }
    }
}

/// Sorted rows are in sequence.
proof fn lemma_rows_sorted_in_sequence(rows: Seq<RowView>)
    ensures
        rows_in_sequence(rows_sorted(rows)),
    decreases rows.len(),
{
    if rows.len() > 0 {
        lemma_rows_sorted_in_sequence(rows.drop_last());
        lemma_row_inserted_in_sequence(rows_sorted(rows.drop_last()), rows.last());
    }
}

/// A text comes before all that it begins.
proof fn lemma_beginning_precedes(a: Seq<char>, b: Seq<char>)
    requires
        a.len() < b.len(),
        has_prefix(b, a),
    ensures
        precedes(a, b),
    decreases a.len(),
{
    if a.len() > 0 {
        assert(a[0] == b[0]) by {
            assert(b.take(a.len() as int)[0] == b[0]);
        }
        assert(b.skip(1).take(a.len() - 1) =~= b.take(a.len() as int).skip(1));
        lemma_beginning_precedes(a.skip(1), b.skip(1));
    }
}

/// The rows of the tree are in the order of their paths. What lies in a folder stands below it.
pub proof fn law_tree_is_in_order(
    rows: Seq<RowView>,
    files: Seq<FileInfo>,
    done: Seq<i64>,
    collapsed: Set<Seq<char>>,
    i: int,
    j: int,
)
    requires
        is_tree(rows, files, done, collapsed),
        0 <= i < j < rows.len(),
    ensures
        !precedes(rows[j].path, rows[i].path),
        !has_prefix(rows[i].path, rows[j].path + "/"@),
{
    let folders = choose|folders: Seq<Seq<char>>| #[trigger]
        are_tree_folders(files, folders) && rows == rows_sorted(
            folder_rows(files, done, collapsed, folders, folders.len() as int) + file_rows(
                files,
                done,
                collapsed,
                files.len() as int,
            ),
        );
    lemma_rows_sorted_in_sequence(
        folder_rows(files, done, collapsed, folders, folders.len() as int) + file_rows(
            files,
            done,
            collapsed,
            files.len() as int,
        ),
    );
    let inside = rows[j].path + "/"@;
    if has_prefix(rows[i].path, inside) {
        reveal_strlit("/");
        assert(rows[i].path.take(rows[j].path.len() as int) =~= inside.take(
            rows[j].path.len() as int,
        ));
        assert(inside.take(rows[j].path.len() as int) =~= rows[j].path);
        lemma_beginning_precedes(rows[j].path, rows[i].path);
    }
}

/// The characters of `needle` occur in `hay` in their order.
pub open spec fn in_order(hay: Seq<char>, needle: Seq<char>) -> bool
    decreases hay.len(),
{
    if needle.len() == 0 {
        true
    } else if hay.len() == 0 {
        false
    } else if hay[0] == needle[0] {
        in_order(hay.skip(1), needle.skip(1))
    } else {
        in_order(hay.skip(1), needle)
    }
}

/// What occurs in order occurs in order without its first character.
proof fn lemma_in_order_shorter(hay: Seq<char>, needle: Seq<char>)
    requires
        needle.len() > 0,
        in_order(hay, needle),
    ensures
        in_order(hay, needle.skip(1)),
    decreases hay.len(),
{
    let rest = needle.skip(1);
    if rest.len() > 0 {
        if hay[0] == needle[0] {
            if hay[0] == rest[0] {
                lemma_in_order_shorter(hay.skip(1), rest);
            }
        } else {
            lemma_in_order_shorter(hay.skip(1), needle);
            if hay[0] == rest[0] {
                lemma_in_order_shorter(hay.skip(1), rest);
            }
        }
    }
}

/// More text before it changes nothing about what occurs in order.
proof fn lemma_in_order_longer(hay: Seq<char>, needle: Seq<char>)
    requires
        hay.len() > 0,
        in_order(hay.skip(1), needle),
    ensures
        in_order(hay, needle),
{
    if needle.len() > 0 && hay[0] == needle[0] {
        lemma_in_order_shorter(hay.skip(1), needle);
    }
}

/// A start of a text occurs in it in order.
proof fn lemma_in_order_prefix(hay: Seq<char>, needle: Seq<char>)
    requires
        needle.len() <= hay.len(),
        hay.subrange(0, needle.len() as int) == needle,
    ensures
        in_order(hay, needle),
    decreases needle.len(),
{
    if needle.len() > 0 {
        assert(hay[0] == hay.subrange(0, needle.len() as int)[0]);
        let h = hay.skip(1);
        let n = needle.skip(1);
        assert(h.subrange(0, n.len() as int) =~= n) by {
            assert forall|i: int| 0 <= i < n.len() implies h[i] == n[i] by {
                assert(hay.subrange(0, needle.len() as int)[i + 1] == needle[i + 1]);
            }
        }
        lemma_in_order_prefix(h, n);
    }
}

/// What occurs as a whole occurs in order, so the loose match finds all that a plain search
/// finds.
pub proof fn law_fuzzy_match_covers_search(hay: Seq<char>, needle: Seq<char>)
    requires
        occurs(hay, needle),
    ensures
        in_order(hay, needle),
{
    let i = choose|i: int| occurs_at(hay, needle, i);
    lemma_in_order_from(hay, needle, i);
}

/// What occurs at a position occurs in order.
proof fn lemma_in_order_from(hay: Seq<char>, needle: Seq<char>, i: int)
    requires
        occurs_at(hay, needle, i),
    ensures
        in_order(hay, needle),
    decreases i,
{
    if i == 0 {
        lemma_in_order_prefix(hay, needle);
    } else {
        let h = hay.skip(1);
        assert(h.subrange(i - 1, i - 1 + needle.len()) =~= hay.subrange(i, i + needle.len()));
        lemma_in_order_from(h, needle, i - 1);
        lemma_in_order_longer(hay, needle);
    }
}

/// Whether `needle` occurs in `hay`, or its characters do in their order. Both are in
/// lowercase.
pub fn fuzzy_match_lc(haystack_lc: &str, needle_lc: &str) -> (r: bool)
    ensures
        r == (occurs(haystack_lc@, needle_lc@) || in_order(haystack_lc@, needle_lc@)),
        r == in_order(haystack_lc@, needle_lc@),
{
    proof {
        if occurs(haystack_lc@, needle_lc@) {
            law_fuzzy_match_covers_search(haystack_lc@, needle_lc@);
        }
    }
    if is_empty(needle_lc) {
        return true;
    }
    if contains(haystack_lc, needle_lc) {
        return true;
    }
    let hay = chars_of(haystack_lc);
    let needle = chars_of(needle_lc);
    let mut i: usize = 0;
    let mut k: usize = 0;
    let length: usize = needle.len();
    assert(hay@.skip(0) =~= hay@);
    assert(needle@.skip(0) =~= needle@);
    while i < hay.len()
        invariant
            i <= hay@.len(),
            k < length == needle@.len(),
            hay@ == haystack_lc@,
            needle@ == needle_lc@,
            in_order(hay@, needle@) == in_order(hay@.skip(i as int), needle@.skip(k as int)),
        decreases hay@.len() - i,
    {
        proof {
            assert(hay@.skip(i as int)[0] == hay@[i as int]);
            assert(needle@.skip(k as int)[0] == needle@[k as int]);
            assert(hay@.skip(i as int).skip(1) =~= hay@.skip(i as int + 1));
            assert(needle@.skip(k as int).skip(1) =~= needle@.skip(k as int + 1));
        }
        if hay[i] == needle[k] {
            k = k + 1;
            if k == length {
                assert(needle@.skip(k as int).len() == 0);
                assert(in_order(hay@.skip(i as int + 1), needle@.skip(k as int)));
                return true;
            }
        }
        i = i + 1;
    }
    false
}

/// The positions among the first `n` paths that the filter lets through.
pub open spec fn passing(paths_lc: Seq<Seq<char>>, filter_lc: Seq<char>, n: int) -> Seq<usize>
    decreases n,
{
    if n <= 0 {
        Seq::empty()
    } else if in_order(paths_lc[n - 1], filter_lc) {
        passing(paths_lc, filter_lc, n - 1).push((n - 1) as usize)
    } else {
        passing(paths_lc, filter_lc, n - 1)
    }
}

/// The positions of the paths that the filter lets through; both are in lowercase.
pub fn filter_paths(paths_lc: &Vec<String>, filter_lc: &str) -> (r: Vec<usize>)
    ensures
        r@ == passing(texts(paths_lc@), filter_lc@, paths_lc@.len() as int),
        forall|k: int| 0 <= k < r@.len() ==> #[trigger] r@[k] < paths_lc@.len(),
{
    let mut out: Vec<usize> = Vec::new();
    assert(out@ =~= Seq::<usize>::empty());
    let mut i: usize = 0;
    while i < paths_lc.len()
        invariant
            i <= paths_lc@.len(),
            out@ == passing(texts(paths_lc@), filter_lc@, i as int),
            forall|k: int| 0 <= k < out@.len() ==> #[trigger] out@[k] < i,
        decreases paths_lc@.len() - i,
    {
        assert(texts(paths_lc@)[i as int] == paths_lc@[i as int]@);
        if fuzzy_match_lc(paths_lc[i].as_str(), filter_lc) {
            out.push(i);
        }
        i = i + 1;
    }
    out
}

/// The row of a file in a list without folders.
pub open spec fn flat_row(files: Seq<FileInfo>, done: Seq<i64>, i: int) -> RowView {
    RowView {
        indent: 0,
        label: files[i].path@,
        path: files[i].path@,
        is_folder: false,
        file_index: Some(i as usize),
        size: files[i].size,
        done: done[i],
        priority: Some(files[i].priority),
        mixed: false,
    }
}

/// The rows of the files that a filter lets through.
pub fn filter_content_rows(files: &Vec<FileInfo>, done: &Vec<i64>, matches: &Vec<usize>) -> (r: Vec<
    TreeRow,
>)
    requires
        done@.len() == files@.len(),
        forall|k: int| 0 <= k < matches@.len() ==> #[trigger] matches@[k] < files@.len(),
    ensures
        row_views(r@) == Seq::new(
            matches@.len(),
            |k: int| flat_row(files@, done@, matches@[k] as int),
        ),
{
    let mut out: Vec<TreeRow> = Vec::new();
    let mut k: usize = 0;
    while k < matches.len()
        invariant
            k <= matches@.len(),
            done@.len() == files@.len(),
            forall|k: int| 0 <= k < matches@.len() ==> #[trigger] matches@[k] < files@.len(),
            out@.len() == k,
            forall|j: int|
                0 <= j < k ==> (#[trigger] out@[j])@ == flat_row(
                    files@,
                    done@,
                    matches@[j] as int,
                ),
        decreases matches@.len() - k,
    {
        let i: usize = matches[k];
        let file = &files[i];
        out.push(
            TreeRow {
                indent: 0,
                label: file.path.clone(),
                full_path: file.path.clone(),
                is_folder: false,
                file_index: Some(i),
                total_size: file.size,
                total_done: done[i],
                priority: Some(file.priority),
                is_mixed: false,
            },
        );
        k = k + 1;
    }
    assert(row_views(out@) =~= Seq::new(
        matches@.len(),
        |k: int| flat_row(files@, done@, matches@[k] as int),
    ));
    out
}

} // verus!
