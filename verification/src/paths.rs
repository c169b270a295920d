//! Paths whose segments slashes separate, taken apart as the system does.

use crate::text::{
    chars_of, concat2, concat3, ends_with, has_prefix, has_suffix, is_empty, opt_text, same, split,
    split_on, starts_with, string_of, texts,
};
use vstd::prelude::*;

verus! {

/// A path without the slashes and the empty steps (`/.`) it ends with; the root stays.
pub open spec fn bare_path(p: Seq<char>) -> Seq<char>
    decreases p.len(),
{
    if p.len() > 1 && (p.last() == '/' || (p.last() == '.' && p[p.len() - 2] == '/')) {
        bare_path(p.drop_last())
    } else {
        p
    }
}

/// The length of the part of `p` up to and with its last slash.
pub open spec fn upto_slash(p: Seq<char>) -> int
    decreases p.len(),
{
    if p.len() == 0 {
        0
    } else if p.last() == '/' {
        p.len() as int
    } else {
        upto_slash(p.drop_last())
    }
}

/// The folder that a path lies in; `None` for the root and the empty path.
pub open spec fn path_parent(p: Seq<char>) -> Option<Seq<char>> {
    let q = bare_path(p);
    if q.len() == 0 || q == "/"@ {
        None
    } else {
        Some(bare_path(q.take(upto_slash(q))))
    }
}

/// The last segment of a path, where it names a file.
pub open spec fn path_name(p: Seq<char>) -> Option<Seq<char>> {
    let q = bare_path(p);
    let name = q.skip(upto_slash(q));
    if name.len() == 0 || name == "."@ || name == ".."@ {
        None
    } else {
        Some(name)
    }
}

/// The length of a path without the slashes and empty steps it ends with.
fn bare_length(v: &Vec<char>, upto: usize) -> (r: usize)
    requires
        upto <= v@.len(),
    ensures
        r <= upto,
        bare_path(v@.take(upto as int)) == v@.take(r as int),
{
    let mut n: usize = upto;
    while n > 1 && (v[n - 1] == '/' || (v[n - 1] == '.' && v[n - 2] == '/'))
        invariant
            n <= upto <= v@.len(),
            bare_path(v@.take(upto as int)) == bare_path(v@.take(n as int)),
        decreases n,
    {
        assert(v@.take(n as int).drop_last() =~= v@.take(n - 1));
        n = n - 1;
    }
    n
}

/// The length of the part of the path `v[..n]` up to and with its last slash.
fn slash_length(v: &Vec<char>, n: usize) -> (r: usize)
    requires
        n <= v@.len(),
    ensures
        r <= n,
        r == upto_slash(v@.take(n as int)),
{
    let mut k: usize = n;
    while k > 0 && v[k - 1] != '/'
        invariant
            k <= n <= v@.len(),
            upto_slash(v@.take(n as int)) == upto_slash(v@.take(k as int)),
        decreases k,
    {
        assert(v@.take(k as int).drop_last() =~= v@.take(k - 1));
        k = k - 1;
    }
    k
}

/// The folder that a path lies in; `None` for the root and the empty path.
pub fn parent_of(path: &str) -> (r: Option<String>)
    ensures
        opt_text(r) == path_parent(path@),
{
    let v = chars_of(path);
    let n: usize = bare_length(&v, v.len());
    proof {
        assert(v@.take(v@.len() as int) =~= v@);
        reveal_strlit("/");
        if n == 1 && v@[0] == '/' {
            assert(v@.take(1) =~= "/"@);
        }
        if v@.take(n as int) == "/"@ {
            assert(v@.take(n as int).len() == "/"@.len());
            assert(n == 1);
            assert(v@.take(n as int)[0] == '/');
        }
    }
    if n == 0 || (n == 1 && v[0] == '/') {
        return None;
    }
    let k: usize = slash_length(&v, n);
    let m: usize = bare_length(&v, k);
    let out = string_of(v.as_slice(), 0, m);
    proof {
        assert(v@.take(n as int).take(k as int) =~= v@.take(k as int));
        assert(out@ =~= v@.take(m as int));
    }
    Some(out)
}

/// The last segment of a path, where it names a file.
pub fn name_of(path: &str) -> (r: Option<String>)
    ensures
        opt_text(r) == path_name(path@),
{
    let v = chars_of(path);
    let n: usize = bare_length(&v, v.len());
    assert(v@.take(v@.len() as int) =~= v@);
    let k: usize = slash_length(&v, n);
    let name = string_of(v.as_slice(), k, n);
    assert(name@ =~= v@.take(n as int).skip(k as int));
    if k == n || same(name.as_str(), ".") || same(name.as_str(), "..") {
        None
    } else {
        Some(name)
    }
}

/// The segments that are not empty.
pub open spec fn filled(segments: Seq<Seq<char>>) -> Seq<Seq<char>>
    decreases segments.len(),
{
    if segments.len() == 0 {
        segments
    } else if segments.last().len() == 0 {
        filled(segments.drop_last())
    } else {
        filled(segments.drop_last()).push(segments.last())
    }
}

/// The segments of a path.
pub open spec fn segments_of(path: Seq<char>) -> Seq<Seq<char>> {
    filled(split(path, '/'))
}

/// The segments of a path.
pub fn path_segments(path: &str) -> (r: Vec<String>)
    ensures
        texts(r@) == segments_of(path@),
{
    let parts = split_on(path, '/');
    let ghost all = split(path@, '/');
    let mut out: Vec<String> = Vec::new();
    let mut i: usize = 0;
    assert(all.take(0) =~= Seq::<Seq<char>>::empty());
    assert(texts(out@) =~= Seq::<Seq<char>>::empty());
    while i < parts.len()
        invariant
            i <= parts@.len(),
            texts(parts@) == all,
            texts(out@) == filled(all.take(i as int)),
        decreases parts@.len() - i,
    {
        proof {
            assert(all.take(i as int + 1).drop_last() =~= all.take(i as int));
            assert(all.take(i as int + 1).last() == parts@[i as int]@);
        }
        if !crate::text::is_empty(parts[i].as_str()) {
            let ghost before = out@;
            out.push(parts[i].clone());
            assert(texts(out@) =~= texts(before).push(parts@[i as int]@));
        }
        i = i + 1;
    }
    assert(all.take(all.len() as int) =~= all);
    out
}

/// What remains of a path is no longer than it.
proof fn lemma_bare_path(p: Seq<char>)
    ensures
        bare_path(p).len() <= p.len(),
    decreases p.len(),
{
    if p.len() > 1 && (p.last() == '/' || (p.last() == '.' && p[p.len() - 2] == '/')) {
        lemma_bare_path(p.drop_last());
    }
}

/// The last slash lies in the path.
proof fn lemma_upto_slash(p: Seq<char>)
    ensures
        0 <= upto_slash(p) <= p.len(),
        upto_slash(p) == p.len() ==> p.len() == 0 || p.last() == '/',
    decreases p.len(),
{
    if p.len() > 0 && p.last() != '/' {
        lemma_upto_slash(p.drop_last());
    }
}

/// What remains of a path of more than one character does not end in a slash.
proof fn lemma_bare_path_ends(p: Seq<char>)
    ensures
        bare_path(p).len() > 1 ==> bare_path(p).last() != '/',
    decreases p.len(),
{
    if p.len() > 1 && (p.last() == '/' || (p.last() == '.' && p[p.len() - 2] == '/')) {
        lemma_bare_path_ends(p.drop_last());
    }
}

/// The folder that a path lies in is shorter than the path.
pub proof fn lemma_parent_is_shorter(p: Seq<char>)
    ensures
        path_parent(p) matches Some(folder) ==> folder.len() < p.len(),
{
    let q = bare_path(p);
    lemma_bare_path(p);
    lemma_bare_path_ends(p);
    lemma_upto_slash(q);
    lemma_bare_path(q.take(upto_slash(q)));
    reveal_strlit("/");
    if q.len() == 1 && q.last() == '/' {
        assert(q =~= "/"@);
    }
}

/// A path with a name below it.
pub open spec fn below(folder: Seq<char>, name: Seq<char>) -> Seq<char> {
    if folder.len() == 0 || has_suffix(folder, "/"@) {
        folder + name
    } else {
        folder + "/"@ + name
    }
}

/// A path with a name below it.
pub fn path_below(folder: &str, name: &str) -> (r: String)
    ensures
        r@ == below(folder@, name@),
{
    if is_empty(folder) || ends_with(folder, "/") {
        concat2(folder, name)
    } else {
        concat3(folder, "/", name)
    }
}

/// A path below a folder; an absolute path stays what it is.
pub open spec fn joined(folder: Seq<char>, path: Seq<char>) -> Seq<char> {
    if has_prefix(path, "/"@) {
        path
    } else {
        below(folder, path)
    }
}

/// A path below a folder; an absolute path stays what it is.
pub fn join_path(folder: &str, path: &str) -> (r: String)
    ensures
        r@ == joined(folder@, path@),
{
    if starts_with(path, "/") {
        path.to_owned()
    } else {
        path_below(folder, path)
    }
}

} // verus!
