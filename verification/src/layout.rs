//! Paths inside a torrent: the layout of its files and the renames that change it.

use crate::ipc::ContentLayout;
use crate::text::{
    chars_of, concat2, concat3, contains_char, is_empty, join, join_with, lemma_split_fields,
    is_space, string_of, lemma_split_first, lemma_split_join, same, split, split_on, strip_prefix,
    texts, trim, trimmed, has_prefix,
};
use vstd::prelude::*;

verus! {

/// The character that may stand for `c` in one component of a path.
pub open spec fn component_char(c: char) -> char {
    if c == '/' || c == '\\' || c == '\0' {
        '_'
    } else {
        c
    }
}

/// A character that a component neither begins nor ends with.
pub open spec fn is_edge(c: char) -> bool {
    c == '.' || is_space(c)
}

/// `s` without the dots and the white space it begins with.
pub open spec fn bare_front(s: Seq<char>) -> Seq<char>
    decreases s.len(),
{
    if s.len() > 0 && is_edge(s[0]) {
        bare_front(s.skip(1))
    } else {
        s
    }
}

/// `s` without the dots and the white space it ends with.
pub open spec fn bare_back(s: Seq<char>) -> Seq<char>
    decreases s.len(),
{
    if s.len() > 0 && is_edge(s.last()) {
        bare_back(s.drop_last())
    } else {
        s
    }
}

/// A name with separators and nulls replaced, and without the white space and the dots around
/// it.
pub open spec fn component(name: Seq<char>) -> Seq<char> {
    bare_back(bare_front(name.map_values(|c: char| component_char(c))))
}

/// A component that names a file.
pub open spec fn usable_component(s: Seq<char>) -> bool {
    s.len() > 0
}

/// Whether a component neither begins nor ends with the character.
fn at_edge(c: char) -> (r: bool)
    ensures
        r == is_edge(c),
{
    c == '.' || c.is_whitespace()
}

/// Makes one path component of a torrent's name; `None` where nothing usable remains.
pub fn sanitize_path_component(name: &str) -> (r: Option<String>)
    ensures
        r is Some <==> usable_component(component(name@)),
        r matches Some(s) ==> s@ == component(name@),
{
    let v = chars_of(name);
    let mut replaced: Vec<char> = Vec::new();
    let mut i: usize = 0;
    while i < v.len()
        invariant
            i <= v@.len(),
            replaced@ == v@.take(i as int).map_values(|c: char| component_char(c)),
        decreases v@.len() - i,
    {
        let c = v[i];
        let kept = if c == '/' || c == '\\' || c == '\0' { '_' } else { c };
        replaced.push(kept);
        assert(replaced@ =~= v@.take(i as int + 1).map_values(|c: char| component_char(c)));
        i = i + 1;
    }
    assert(v@.take(v@.len() as int) =~= v@);
    let mut from: usize = 0;
    assert(replaced@.skip(0) =~= replaced@);
    while from < replaced.len() && at_edge(replaced[from])
        invariant
            from <= replaced@.len(),
            bare_front(replaced@.skip(from as int)) == bare_front(replaced@),
        decreases replaced@.len() - from,
    {
        assert(replaced@.skip(from as int).skip(1) =~= replaced@.skip(from as int + 1));
        from = from + 1;
    }
    let mut to: usize = replaced.len();
    assert(replaced@.subrange(from as int, to as int) =~= replaced@.skip(from as int));
    while from < to && at_edge(replaced[to - 1])
        invariant
            from <= to <= replaced@.len(),
            bare_back(replaced@.subrange(from as int, to as int)) == bare_back(
                replaced@.skip(from as int),
            ),
        decreases to,
    {
        assert(replaced@.subrange(from as int, to as int).drop_last() =~= replaced@.subrange(
            from as int,
            to - 1,
        ));
        to = to - 1;
    }
    if from == to {
        None
    } else {
        Some(string_of(replaced.as_slice(), from, to))
    }
}

/// What is left of a text that may begin or end with anything.
proof fn lemma_edges_are_gone(s: Seq<char>)
    ensures
        bare_front(s).len() > 0 ==> !is_edge(bare_front(s)[0]),
        bare_back(s).len() > 0 ==> !is_edge(bare_back(s).last()) && bare_back(s)[0] == s[0],
    decreases s.len(),
{
    if s.len() > 0 {
        lemma_edges_are_gone(s.skip(1));
        lemma_edges_are_gone(s.drop_last());
    }
}

/// A component holds no separator, and neither begins nor ends with a dot or white space, so it
/// is never the folder itself nor the one above it.
pub proof fn law_component_is_one_safe_name(name: Seq<char>)
    requires
        usable_component(component(name)),
    ensures
        !is_edge(component(name)[0]),
        !is_edge(component(name).last()),
        forall|i: int|
            0 <= i < component(name).len() ==> #[trigger] component(name)[i] != '/' && component(
                name,
            )[i] != '\\' && component(name)[i] != '\0',
        component(name) != "."@,
        component(name) != ".."@,
{
    let replaced = name.map_values(|c: char| component_char(c));
    lemma_edges_are_gone(replaced);
    lemma_edges_are_gone(bare_front(replaced));
    lemma_edges_keep_characters(replaced);
    lemma_edges_keep_characters(bare_front(replaced));
    assert forall|i: int| 0 <= i < component(name).len() implies #[trigger] component(name)[i]
        != '/' && component(name)[i] != '\\' && component(name)[i] != '\0' by {
        assert(replaced.contains(component(name)[i]));
        let k = replaced.index_of(component(name)[i]);
        assert(replaced[k] == component_char(name[k]));
    }
    reveal_strlit(".");
    reveal_strlit("..");
}

/// A text without its edges holds only characters of the text.
proof fn lemma_edges_keep_characters(s: Seq<char>)
    ensures
        forall|i: int| 0 <= i < bare_front(s).len() ==> s.contains(#[trigger] bare_front(s)[i]),
        forall|i: int| 0 <= i < bare_back(s).len() ==> s.contains(#[trigger] bare_back(s)[i]),
    decreases s.len(),
{
    assert forall|i: int| 0 <= i < bare_front(s).len() implies s.contains(
        #[trigger] bare_front(s)[i],
    ) by {
        if is_edge(s[0]) {
            lemma_edges_keep_characters(s.skip(1));
            let k = s.skip(1).index_of(bare_front(s)[i]);
            assert(s.skip(1).contains(bare_front(s.skip(1))[i]));
            assert(s[k + 1] == bare_front(s)[i]);
        } else {
            assert(s[i] == bare_front(s)[i]);
        }
    }
    assert forall|i: int| 0 <= i < bare_back(s).len() implies s.contains(
        #[trigger] bare_back(s)[i],
    ) by {
        if is_edge(s.last()) {
            lemma_edges_keep_characters(s.drop_last());
            let k = s.drop_last().index_of(bare_back(s)[i]);
            assert(s.drop_last().contains(bare_back(s.drop_last())[i]));
            assert(s[k] == bare_back(s)[i]);
        } else {
            assert(s[i] == bare_back(s)[i]);
        }
    }
}

/// The folder that all files share as their first segment, where there is one.
pub open spec fn shared_root(files: Seq<Seq<char>>) -> Option<Seq<char>> {
    if files.len() == 0 || !files[0].contains('/') {
        None
    } else {
        let root = split(files[0], '/')[0];
        if root.len() > 0 && (forall|i: int|
            0 <= i < files.len() ==> (#[trigger] files[i]).contains('/') && split(files[i], '/')[0]
                == root) {
            Some(root)
        } else {
            None
        }
    }
}

/// The folder that all files share as their first segment; `None` where they do not share one,
/// as in a torrent of a single file.
pub fn common_root(files: &[String]) -> (r: Option<String>)
    ensures
        r is Some <==> shared_root(texts(files@)) is Some,
        r matches Some(root) ==> shared_root(texts(files@)) == Some(root@),
{
    let ghost paths = texts(files@);
    if files.len() == 0 {
        return None;
    }
    assert(paths[0] == files@[0]@);
    if !contains_char(files[0].as_str(), '/') {
        return None;
    }
    let fields = split_on(files[0].as_str(), '/');
    assert(texts(fields@)[0] == fields@[0]@);
    let root = fields[0].clone();
    if is_empty(root.as_str()) {
        return None;
    }
    let mut i: usize = 0;
    while i < files.len()
        invariant
            i <= files@.len(),
            paths == texts(files@),
            files@.len() > 0,
            paths[0].contains('/'),
            root@ == split(paths[0], '/')[0],
            root@.len() > 0,
            forall|j: int|
                0 <= j < i ==> (#[trigger] paths[j]).contains('/') && split(paths[j], '/')[0]
                    == root@,
        decreases files@.len() - i,
    {
        assert(paths[i as int] == files@[i as int]@);
        if !contains_char(files[i].as_str(), '/') {
            return None;
        }
        let own = split_on(files[i].as_str(), '/');
        assert(texts(own@)[0] == own@[0]@);
        if !same(own[0].as_str(), root.as_str()) {
            return None;
        }
        i = i + 1;
    }
    Some(root)
}

// ----- renaming by a typed path -----

/// The path that remains after walking the segments from the root, each `..` going up one
/// level; `None` where that would leave the root.
pub open spec fn walk(segments: Seq<Seq<char>>) -> Option<Seq<Seq<char>>>
    decreases segments.len(),
{
    if segments.len() == 0 {
        Some(Seq::empty())
    } else {
        match walk(segments.drop_last()) {
            None => None,
            Some(path) => {
                let s = segments.last();
                if s.len() == 0 || s == "."@ {
                    Some(path)
                } else if s == ".."@ {
                    if path.len() == 0 {
                        None
                    } else {
                        Some(path.drop_last())
                    }
                } else {
                    Some(path.push(s))
                }
            },
        }
    }
}

/// The segments to walk for a name typed beside an item of the folder `parent`.
pub open spec fn typed_segments(parent: Seq<char>, input: Seq<char>) -> Seq<Seq<char>> {
    split(parent, '/') + split(trim(input), '/')
}

/// The path below the root that a typed name stands for, or the reason it is refused.
pub open spec fn rename_target(parent: Seq<char>, input: Seq<char>) -> Result<
    Seq<char>,
    Seq<char>,
> {
    if trim(input).len() == 0 {
        Err("name cannot be empty"@)
    } else if trim(input).contains('\0') {
        Err("name cannot contain null bytes"@)
    } else {
        match walk(typed_segments(parent, input)) {
            None => Err("cannot ascend above the torrent root"@),
            Some(path) => if path.len() == 0 {
                Err("name cannot resolve to the torrent root"@)
            } else {
                Ok(join(path, "/"@))
            },
        }
    }
}

/// Walking cannot get back from a walk that left the root.
proof fn lemma_walk_stays_out(segments: Seq<Seq<char>>, n: int)
    requires
        0 <= n <= segments.len(),
        walk(segments.take(n)) is None,
    ensures
        walk(segments) is None,
    decreases segments.len() - n,
{
    if n < segments.len() {
        assert(segments.take(n + 1).drop_last() =~= segments.take(n));
        lemma_walk_stays_out(segments, n + 1);
    } else {
        assert(segments.take(n) =~= segments);
    }
}

/// Resolves a typed name against the folder of the item that is renamed.
///
/// `parent` is the path of that folder below the torrent's root, empty at the root itself. `.`
/// and `..` are understood; a name that leaves the root, or that stands for the root, is
/// refused. The result is a path below the root.
pub fn resolve_rename_input(parent: &str, input: &str) -> (r: Result<String, String>)
    ensures
        match r {
            Ok(path) => rename_target(parent@, input@) == Ok::<Seq<char>, Seq<char>>(path@),
            Err(reason) => rename_target(parent@, input@) == Err::<Seq<char>, Seq<char>>(reason@),
        },
{
    let typed = trimmed(input);
    if is_empty(typed.as_str()) {
        return Err("name cannot be empty".to_owned());
    }
    if contains_char(typed.as_str(), '\0') {
        return Err("name cannot contain null bytes".to_owned());
    }
    let above = split_on(parent, '/');
    let below = split_on(typed.as_str(), '/');
    let ghost all = typed_segments(parent@, input@);
    let mut path: Vec<String> = Vec::new();
    let mut i: usize = 0;
    let mut k: usize = 0;
    assert(all.take(0) =~= Seq::<Seq<char>>::empty());
    assert(texts(path@) =~= Seq::<Seq<char>>::empty());
    while i < above.len() || k < below.len()
        invariant
            i <= above@.len(),
            k <= below@.len(),
            k > 0 ==> i == above@.len(),
            all == texts(above@) + texts(below@),
            all == typed_segments(parent@, input@),
            typed@ == trim(input@),
            typed@.len() > 0,
            !typed@.contains('\0'),
            walk(all.take(i + k)) == Some(texts(path@)),
        decreases above@.len() - i + below@.len() - k,
    {
        let segment = if i < above.len() { above[i].as_str() } else { below[k].as_str() };
        proof {
            assert(all.take(i + k + 1).drop_last() =~= all.take(i + k));
            assert(all.take(i + k + 1).last() == segment@);
        }
        let ghost before = path@;
        if is_empty(segment) || same(segment, ".") {
        } else if same(segment, "..") {
            if path.len() == 0 {
                proof {
                    lemma_walk_stays_out(all, i + k + 1);
                }
                return Err("cannot ascend above the torrent root".to_owned());
            }
            path.pop();
            assert(texts(path@) =~= texts(before).drop_last());
        } else {
            path.push(segment.to_owned());
            assert(texts(path@) =~= texts(before).push(segment@));
        }
        if i < above.len() {
            i = i + 1;
        } else {
            k = k + 1;
        }
    }
    assert(all.take(all.len() as int) =~= all);
    if path.len() == 0 {
        return Err("name cannot resolve to the torrent root".to_owned());
    }
    Ok(join_with(&path, "/"))
}

/// A segment that goes down one level.
pub open spec fn plain_segment(s: Seq<char>) -> bool {
    s.len() > 0 && s != "."@ && s != ".."@ && !s.contains('/')
}

/// What a walk leaves is made of plain segments.
proof fn lemma_walk_plain(segments: Seq<Seq<char>>)
    requires
        forall|i: int| 0 <= i < segments.len() ==> !(#[trigger] segments[i]).contains('/'),
    ensures
        walk(segments) matches Some(path) ==> forall|i: int|
            0 <= i < path.len() ==> plain_segment(#[trigger] path[i]),
    decreases segments.len(),
{
    if segments.len() > 0 {
        let init = segments.drop_last();
        assert forall|i: int| 0 <= i < init.len() implies !(#[trigger] init[i]).contains('/') by {
            assert(init[i] == segments[i]);
        }
        lemma_walk_plain(init);
        assert(!segments[segments.len() - 1].contains('/'));
    }
}

/// A typed rename never escapes the torrent: the path it gives is a non-empty row of plain
/// segments, none of which is empty, `.` or `..`.
pub proof fn law_rename_stays_inside(parent: Seq<char>, input: Seq<char>)
    ensures
        rename_target(parent, input) matches Ok(path) ==> {
            &&& split(path, '/').len() > 0
            &&& forall|i: int| 0 <= i < split(path, '/').len() ==> plain_segment(#[trigger] split(path, '/')[i])
        },
{
    let all = typed_segments(parent, input);
    lemma_split_fields(parent, '/');
    lemma_split_fields(trim(input), '/');
    let left = split(parent, '/');
    assert forall|i: int| 0 <= i < all.len() implies !(#[trigger] all[i]).contains('/') by {
        if i < left.len() {
            assert(all[i] == left[i]);
        } else {
            assert(all[i] == split(trim(input), '/')[i - left.len()]);
        }
    }
    lemma_walk_plain(all);
    if let Some(path) = walk(all) {
        if path.len() > 0 {
            reveal_strlit("/");
            assert("/"@ =~= seq!['/']);
            assert forall|i: int| 0 <= i < path.len() implies !(#[trigger] path[i]).contains('/') by {
                assert(plain_segment(path[i]));
            }
            lemma_split_join(path, '/');
        }
    }
}

// ----- content layout -----

/// A rename as plain values: the file and its new path.
pub open spec fn rename_view(v: Seq<(usize, String)>) -> Seq<(int, Seq<char>)> {
    v.map_values(|r: (usize, String)| (r.0 as int, r.1@))
}

/// Every file without the folder `root` and the slash behind it.
pub open spec fn without_root(files: Seq<Seq<char>>, root: Seq<char>) -> Seq<(int, Seq<char>)> {
    Seq::new(files.len(), |i: int| (i, files[i].skip(root.len() as int + 1)))
}

/// The last segment of a path.
pub open spec fn file_name(path: Seq<char>) -> Seq<char> {
    split(path, '/').last()
}

/// The path of a single file in a folder named after its torrent.
pub open spec fn wrapped(path: Seq<char>, name: Seq<char>) -> Seq<char> {
    component(name) + "/"@ + file_name(path)
}

/// The renames that put the files of a torrent of that name into a concrete layout.
pub open spec fn layout_renames(
    files: Seq<Seq<char>>,
    name: Seq<char>,
    layout: ContentLayout,
) -> Seq<(int, Seq<char>)> {
    if layout == ContentLayout::Never && files.len() > 1 {
        match shared_root(files) {
            Some(root) => without_root(files, root),
            None => Seq::empty(),
        }
    } else if layout == ContentLayout::Always && files.len() == 1 && usable_component(
        component(name),
    ) && wrapped(files[0], name) != files[0] {
        seq![(0int, wrapped(files[0], name))]
    } else {
        Seq::empty()
    }
}

/// A path in the folder `root` is the folder, a slash and the rest.
proof fn lemma_in_root(path: Seq<char>, root: Seq<char>)
    requires
        path.contains('/'),
        split(path, '/')[0] == root,
    ensures
        has_prefix(path, root + "/"@),
        root.len() + 1 <= path.len(),
        path == root + "/"@ + path.skip(root.len() as int + 1),
{
    lemma_split_first(path, '/');
    reveal_strlit("/");
    assert(path.subrange(0, root.len() as int + 1) =~= root + "/"@);
    assert(path =~= root + "/"@ + path.skip(root.len() as int + 1));
}

/// The renames that put `files` into the layout `resolved`, as pairs of a file and its new
/// path. `name` is the torrent's display name. Only files that change are listed.
pub fn compute_content_layout_renames(
    files: &[String],
    name: &str,
    resolved: ContentLayout,
) -> (r: Vec<(usize, String)>)
    requires
        resolved == ContentLayout::Always && usable_component(component(name@)) ==> files@.len() > 0,
    ensures
        rename_view(r@) == layout_renames(texts(files@), name@, resolved),
{
    let ghost paths = texts(files@);
    let mut renames: Vec<(usize, String)> = Vec::new();
    let multi = files.len() > 1;
    match resolved {
        ContentLayout::Never => {
            if multi {
                if let Some(root) = common_root(files) {
                    let prefix = concat2(root.as_str(), "/");
                    proof {
                        reveal_strlit("/");
                    }
                    let mut i: usize = 0;
                    while i < files.len()
                        invariant
                            i <= files@.len(),
                            files@.len() > 1,
                            paths == texts(files@),
                            shared_root(paths) == Some(root@),
                            prefix@ == root@ + "/"@,
                            "/"@.len() == 1,
                            rename_view(renames@) == without_root(paths, root@).take(i as int),
                        decreases files@.len() - i,
                    {
                        proof {
                            assert(paths[i as int] == files@[i as int]@);
                            lemma_in_root(paths[i as int], root@);
                        }
                        if let Some(rest) = strip_prefix(files[i].as_str(), prefix.as_str()) {
                            let ghost before = renames@;
                            renames.push((i, rest));
                            proof {
                                assert(rename_view(renames@) =~= rename_view(before).push(
                                    (i as int, rest@),
                                ));
                                assert(without_root(paths, root@).take(i as int + 1)
                                    =~= without_root(paths, root@).take(i as int).push(
                                    (i as int, rest@),
                                ));
                            }
                        }
                        i = i + 1;
                    }
                    assert(without_root(paths, root@).take(files@.len() as int) =~= without_root(
                        paths,
                        root@,
                    ));
                }
            }
        },
        ContentLayout::Always => {
            if !multi {
                if let Some(folder) = sanitize_path_component(name) {
                    let fields = split_on(files[0].as_str(), '/');
                    proof {
                        assert(texts(fields@).last() == fields@[fields@.len() - 1]@);
                        assert(paths[0] == files@[0]@);
                    }
                    let target = concat3(folder.as_str(), "/", fields[fields.len() - 1].as_str());
                    if !same(target.as_str(), files[0].as_str()) {
                        renames.push((0, target));
                        assert(rename_view(renames@) =~= seq![(0int, target@)]);
                    }
                }
            }
        },
        _ => {},
    }
    assert(rename_view(renames@) =~= layout_renames(paths, name@, resolved));
    renames
}

/// Only files whose path changes are renamed.
pub proof fn law_only_changed_files_are_renamed(
    files: Seq<Seq<char>>,
    name: Seq<char>,
    layout: ContentLayout,
    k: int,
)
    requires
        0 <= k < layout_renames(files, name, layout).len(),
    ensures
        ({
            let (file, path) = layout_renames(files, name, layout)[k];
            0 <= file < files.len() && path != files[file]
        }),
{
    if layout == ContentLayout::Never {
        let root = shared_root(files)->0;
        reveal_strlit("/");
        lemma_in_root(files[k], root);
    }
}

/// Taking the root folder away is undone by putting it back: each file's old path is the root,
/// a slash and the new path.
pub proof fn law_never_layout_strips_exactly_the_root(files: Seq<Seq<char>>, name: Seq<char>)
    ensures
        (files.len() > 1 && shared_root(files) is Some) ==> {
            let renames = layout_renames(files, name, ContentLayout::Never);
            let root = shared_root(files)->0;
            &&& renames.len() == files.len()
            &&& forall|i: int|
                0 <= i < files.len() ==> (#[trigger] renames[i]).0 == i && files[i] == root + "/"@
                    + renames[i].1
        },
{
    if files.len() > 1 && shared_root(files) is Some {
        let renames = layout_renames(files, name, ContentLayout::Never);
        let root = shared_root(files)->0;
        assert forall|i: int| 0 <= i < files.len() implies (#[trigger] renames[i]).0 == i && files[i]
            == root + "/"@ + renames[i].1 by {
            lemma_in_root(files[i], root);
        }
    }
}

/// The natural layout already is what `IfMultiple` asks for, `Always` of a torrent of several
/// files, and `Never` of a torrent of one.
pub proof fn law_natural_layout_needs_no_renames(
    files: Seq<Seq<char>>,
    name: Seq<char>,
    layout: ContentLayout,
)
    requires
        layout == ContentLayout::IfMultiple || layout == ContentLayout::Default || (layout
            == ContentLayout::Always && files.len() > 1) || (layout == ContentLayout::Never
            && files.len() <= 1),
    ensures
        layout_renames(files, name, layout).len() == 0,
{
}

// ----- reverting -----

/// The renames that bring the first `n` files back to their default paths.
pub open spec fn revert_plan(
    current: Seq<Seq<char>>,
    default_layout: Seq<Seq<char>>,
    n: int,
) -> Seq<(int, Seq<char>)>
    decreases n,
{
    if n <= 0 {
        Seq::empty()
    } else {
        let before = revert_plan(current, default_layout, n - 1);
        if n - 1 < default_layout.len() && current[n - 1] != default_layout[n - 1] {
            before.push((n - 1, default_layout[n - 1]))
        } else {
            before
        }
    }
}

/// The renames that restore `current` to `default_layout`; both lists go by the file's index.
/// Only files whose path differs from the stored default are listed.
pub fn compute_revert_plan(current: &[String], default_layout: &[String]) -> (r: Vec<
    (usize, String),
>)
    ensures
        rename_view(r@) == revert_plan(
            texts(current@),
            texts(default_layout@),
            current@.len() as int,
        ),
{
    let mut plan: Vec<(usize, String)> = Vec::new();
    let mut i: usize = 0;
    assert(rename_view(plan@) =~= Seq::<(int, Seq<char>)>::empty());
    while i < current.len()
        invariant
            i <= current@.len(),
            rename_view(plan@) == revert_plan(texts(current@), texts(default_layout@), i as int),
        decreases current@.len() - i,
    {
        if i < default_layout.len() {
            if !same(current[i].as_str(), default_layout[i].as_str()) {
                let ghost before = plan@;
                plan.push((i, default_layout[i].clone()));
                assert(rename_view(plan@) =~= rename_view(before).push(
                    (i as int, default_layout@[i as int]@),
                ));
            }
        }
        i = i + 1;
    }
    plan
}

/// The paths after a row of renames.
pub open spec fn renamed(paths: Seq<Seq<char>>, plan: Seq<(int, Seq<char>)>) -> Seq<Seq<char>>
    decreases plan.len(),
{
    if plan.len() == 0 {
        paths
    } else {
        let before = renamed(paths, plan.drop_last());
        before.update(plan.last().0, plan.last().1)
    }
}

/// Carrying out a revert plan restores the default path of every file that has one, and leaves
/// the others alone.
pub proof fn law_revert_restores(current: Seq<Seq<char>>, default_layout: Seq<Seq<char>>)
    ensures
        ({
            let after = renamed(
                current,
                revert_plan(current, default_layout, current.len() as int),
            );
            &&& after.len() == current.len()
            &&& forall|i: int|
                0 <= i < current.len() ==> #[trigger] after[i] == (if i < default_layout.len() {
                    default_layout[i]
                } else {
                    current[i]
                })
        }),
{
    lemma_revert_prefix(current, default_layout, current.len() as int);
}

/// The first `n` steps of a revert plan restore the first `n` files.
proof fn lemma_revert_prefix(current: Seq<Seq<char>>, default_layout: Seq<Seq<char>>, n: int)
    requires
        0 <= n <= current.len(),
    ensures
        ({
            let after = renamed(current, revert_plan(current, default_layout, n));
            &&& after.len() == current.len()
            &&& forall|i: int|
                0 <= i < current.len() ==> #[trigger] after[i] == (if i < default_layout.len() && i
                    < n {
                    default_layout[i]
                } else {
                    current[i]
                })
        }),
    decreases n,
{
    if n > 0 {
        lemma_revert_prefix(current, default_layout, n - 1);
        let before = revert_plan(current, default_layout, n - 1);
        let plan = revert_plan(current, default_layout, n);
        if n - 1 < default_layout.len() && current[n - 1] != default_layout[n - 1] {
            assert(plan.drop_last() =~= before);
        }
    }
}

/// A torrent in its default layout has nothing to revert.
pub proof fn law_revert_of_default_is_empty(paths: Seq<Seq<char>>, n: int)
    requires
        0 <= n <= paths.len(),
    ensures
        revert_plan(paths, paths, n).len() == 0,
    decreases n,
{
    if n > 0 {
        law_revert_of_default_is_empty(paths, n - 1);
    }
}

} // verus!
