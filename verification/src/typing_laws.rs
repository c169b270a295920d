//! What editing and completing a line comes to.

use crate::order::{law_sorting_orders, sorted};
use crate::text::{has_prefix, lowercase};
use crate::textfield::{
    back_over, beginning_with, common_prefix, completed_from, completed_path, cut, folder_part,
    forth_over, is_word, listed_folder, path_candidates, same_letter, without_breaks, word_end,
    word_start, FolderEntry,
};
use vstd::prelude::*;

verus! {

// ----- words -----

/// Where going back stops.
proof fn lemma_back(s: Seq<char>, i: int, word: bool)
    requires
        0 <= i <= s.len(),
    ensures
        0 <= back_over(s, i, word) <= i,
        forall|k: int| back_over(s, i, word) <= k < i ==> is_word(#[trigger] s[k]) == word,
        back_over(s, i, word) > 0 ==> is_word(s[back_over(s, i, word) - 1]) != word,
    decreases i,
{
    if i > 0 && is_word(s[i - 1]) == word {
        lemma_back(s, i - 1, word);
    }
}

/// Where going forth stops.
proof fn lemma_forth(s: Seq<char>, i: int, word: bool)
    requires
        0 <= i <= s.len(),
    ensures
        i <= forth_over(s, i, word) <= s.len(),
        forall|k: int| i <= k < forth_over(s, i, word) ==> is_word(#[trigger] s[k]) == word,
        forth_over(s, i, word) < s.len() ==> is_word(s[forth_over(s, i, word)]) != word,
    decreases s.len() - i,
{
    if i < s.len() && is_word(s[i]) == word {
        lemma_forth(s, i + 1, word);
    }
}

/// A move back by a word goes over what is no word, then over one word to its start.
pub proof fn law_word_moves_stop_at_starts(s: Seq<char>, i: int)
    requires
        0 <= i <= s.len(),
    ensures
        ({
            let start = word_start(s, i);
            &&& 0 <= start <= i
            &&& start > 0 ==> !is_word(s[start - 1])
            &&& exists|m: int|
                #![trigger s.take(m)]
                start <= m <= i && (start > 0 ==> start < m) && (forall|k: int|
                    start <= k < m ==> is_word(#[trigger] s[k])) && (forall|k: int|
                    m <= k < i ==> !is_word(#[trigger] s[k]))
        }),
{
    lemma_back(s, i, false);
    let m = back_over(s, i, false);
    lemma_back(s, m, true);
    let t = s.take(m);
}

/// A move forth by a word goes over what is no word, then over one word to its end.
pub proof fn law_word_moves_stop_at_ends(s: Seq<char>, i: int)
    requires
        0 <= i <= s.len(),
    ensures
        ({
            let end = word_end(s, i);
            &&& i <= end <= s.len()
            &&& end < s.len() ==> !is_word(s[end])
            &&& exists|m: int|
                #![trigger s.take(m)]
                i <= m <= end && (end < s.len() ==> m < end) && (forall|k: int|
                    m <= k < end ==> is_word(#[trigger] s[k])) && (forall|k: int|
                    i <= k < m ==> !is_word(#[trigger] s[k]))
        }),
{
    lemma_forth(s, i, false);
    let m = forth_over(s, i, false);
    lemma_forth(s, m, true);
    let t = s.take(m);
}

/// What is cut out of a text is gone, and what stood around it stays.
pub proof fn law_cutting_takes_out_the_middle(a: Seq<char>, middle: Seq<char>, b: Seq<char>)
    ensures
        cut(a + middle + b, a.len() as int, (a.len() + middle.len()) as int) == a + b,
{
    let s = a + middle + b;
    assert(s.take(a.len() as int) =~= a);
    assert(s.skip((a.len() + middle.len()) as int) =~= b);
}

/// A text that is pasted loses its line breaks and nothing else.
pub proof fn law_pasting_leaves_out_line_breaks(a: Seq<char>, c: char, b: Seq<char>)
    ensures
        !without_breaks(a).contains('\n'),
        !without_breaks(a).contains('\r'),
        without_breaks(a + b) == without_breaks(a) + without_breaks(b),
        c != '\n' && c != '\r' ==> without_breaks(seq![c]) == seq![c],
{
    lemma_no_breaks(a);
    lemma_breaks_joined(a, b);
    assert(seq![c].drop_last() =~= Seq::<char>::empty());
    if c != '\n' && c != '\r' {
        reveal_with_fuel(without_breaks, 2);
        assert(without_breaks(seq![c]) =~= seq![c]);
    }
}

/// No break is left.
proof fn lemma_no_breaks(s: Seq<char>)
    ensures
        !without_breaks(s).contains('\n'),
        !without_breaks(s).contains('\r'),
    decreases s.len(),
{
    if s.len() > 0 {
        lemma_no_breaks(s.drop_last());
        let before = without_breaks(s.drop_last());
        let all = without_breaks(s);
        assert forall|c: char| c == '\n' || c == '\r' implies !(#[trigger] all.contains(c)) by {
            if all.contains(c) {
                let k = all.index_of(c);
                if k < before.len() {
                    assert(before[k] == c);
                }
            }
        }
    }
}

/// Breaks are left out of each part.
proof fn lemma_breaks_joined(a: Seq<char>, b: Seq<char>)
    ensures
        without_breaks(a + b) == without_breaks(a) + without_breaks(b),
    decreases b.len(),
{
    if b.len() == 0 {
        assert(a + b =~= a);
        assert(without_breaks(a) + without_breaks(b) =~= without_breaks(a));
    } else {
        lemma_breaks_joined(a, b.drop_last());
        assert((a + b).drop_last() =~= a + b.drop_last());
        if !(b.last() == '\n' || b.last() == '\r') {
            assert((without_breaks(a) + without_breaks(b.drop_last())).push(b.last())
                =~= without_breaks(a) + without_breaks(b));
        }
    }
}

// ----- completing -----

/// What begins with a text, whatever the case, is found among the candidates, and nothing else.
pub proof fn law_candidates_begin_with_the_text(
    candidates: Seq<Seq<char>>,
    text: Seq<char>,
    name: Seq<char>,
)
    ensures
        beginning_with(candidates, text).contains(name) <==> candidates.contains(name)
            && has_prefix(lowercase(name), lowercase(text)),
        beginning_with(candidates, text).len() <= candidates.len(),
    decreases candidates.len(),
{
    if candidates.len() > 0 {
        let init = candidates.drop_last();
        let before = beginning_with(init, text);
        let all = beginning_with(candidates, text);
        law_candidates_begin_with_the_text(init, text, name);
        if candidates.contains(name) {
            let k = candidates.index_of(name);
            if k < init.len() {
                assert(init[k] == name);
            }
        }
        if init.contains(name) {
            assert(candidates[init.index_of(name)] == name);
        }
        assert(candidates[candidates.len() - 1] == candidates.last());
        if has_prefix(lowercase(candidates.last()), lowercase(text)) {
            assert(all[before.len() as int] == candidates.last());
            if before.contains(name) {
                assert(all[before.index_of(name)] == name);
            }
            if all.contains(name) {
                let k = all.index_of(name);
                if k < before.len() {
                    assert(before[k] == name);
                }
            }
        }
    }
}

/// The only candidate that begins with a text is what it completes to, where it is longer.
pub proof fn law_only_candidate_is_taken(
    candidates: Seq<Seq<char>>,
    text: Seq<char>,
    name: Seq<char>,
)
    requires
        beginning_with(candidates, text) == seq![name],
        name.len() > text.len(),
    ensures
        completed_from(text, candidates) == name,
        has_prefix(lowercase(name), lowercase(text)),
{
    assert(beginning_with(candidates, text)[0] == name);
    assert(beginning_with(candidates, text).contains(name));
    law_candidates_begin_with_the_text(candidates, text, name);
}

/// Where no candidate begins with a text it stays as it is.
pub proof fn law_without_candidates_nothing_changes(candidates: Seq<Seq<char>>, text: Seq<char>)
    requires
        forall|name: Seq<char>| #[trigger]
            candidates.contains(name) ==> !has_prefix(lowercase(name), lowercase(text)),
    ensures
        completed_from(text, candidates) == text,
{
    let all = beginning_with(candidates, text);
    if all.len() > 0 {
        assert(all.contains(all[0]));
        law_candidates_begin_with_the_text(candidates, text, all[0]);
    }
}

/// What several candidates complete to is as long as they agree: one more character and two of
/// them differ, or one ends.
pub proof fn law_common_start_is_the_longest(list: Seq<Seq<char>>)
    requires
        list.len() > 0,
    ensures
        common_prefix(list) == list[0].take(common_prefix(list).len() as int),
        common_prefix(list).len() == list[0].len() || exists|i: int|
            0 <= i < list.len() && (#[trigger] list[i].len() == common_prefix(list).len()
                || !same_letter(
                list[0][common_prefix(list).len() as int],
                list[i][common_prefix(list).len() as int],
            )),
{
    crate::textfield::lemma_longest(list, list.len() as int);
}

/// The folder of a path is what stands before its last part, with its slash.
pub proof fn law_folder_ends_with_the_last_slash(folder: Seq<char>, rest: Seq<char>)
    requires
        !rest.contains('/'),
    ensures
        folder_part(folder.push('/') + rest) == folder.push('/'),
        folder_part(rest) == Seq::<char>::empty(),
        listed_folder(folder.push('/') + rest) == folder.push('/'),
        listed_folder(rest) == "."@,
    decreases rest.len(),
{
    let p = folder.push('/') + rest;
    if rest.len() == 0 {
        assert(p =~= folder.push('/'));
        assert(rest =~= Seq::<char>::empty());
    } else {
        let init = rest.drop_last();
        assert(rest.contains(rest[rest.len() - 1]));
        assert(!init.contains('/')) by {
            if init.contains('/') {
                assert(rest[init.index_of('/')] == '/');
            }
        }
        law_folder_ends_with_the_last_slash(folder, init);
        assert(p.last() == rest.last());
        assert(p.drop_last() =~= folder.push('/') + init);
    }
}

/// How an entry of a folder is completed: behind the folder, a folder itself with a slash.
pub open spec fn entry_path(folder: Seq<char>, entry: FolderEntry) -> Seq<char> {
    if entry.is_folder {
        folder + entry.name@ + "/"@
    } else {
        folder + entry.name@
    }
}

/// The paths that are offered are those of the entries whose names begin with what was typed.
pub proof fn law_entries_are_offered(
    entries: Seq<FolderEntry>,
    folder: Seq<char>,
    rest: Seq<char>,
    path: Seq<char>,
)
    ensures
        path_candidates(entries, folder, rest).contains(path) <==> exists|i: int|
            0 <= i < entries.len() && has_prefix(
                lowercase((#[trigger] entries[i]).name@),
                lowercase(rest),
            ) && path == entry_path(folder, entries[i]),
    decreases entries.len(),
{
    if entries.len() > 0 {
        let init = entries.drop_last();
        let before = path_candidates(init, folder, rest);
        let all = path_candidates(entries, folder, rest);
        let last = entries[entries.len() - 1];
        law_entries_are_offered(init, folder, rest, path);
        assert(folder + last.name@ + Seq::<char>::empty() =~= folder + last.name@);
        if before.contains(path) {
            assert(all[before.index_of(path)] == path);
            let i = choose|i: int|
                0 <= i < init.len() && has_prefix(
                    lowercase((#[trigger] init[i]).name@),
                    lowercase(rest),
                ) && path == entry_path(folder, init[i]);
            assert(entries[i] == init[i]);
        }
        if exists|i: int|
            0 <= i < entries.len() && has_prefix(
                lowercase((#[trigger] entries[i]).name@),
                lowercase(rest),
            ) && path == entry_path(folder, entries[i]) {
            let i = choose|i: int|
                0 <= i < entries.len() && has_prefix(
                    lowercase((#[trigger] entries[i]).name@),
                    lowercase(rest),
                ) && path == entry_path(folder, entries[i]);
            if i < init.len() {
                assert(init[i] == entries[i]);
            } else {
                assert(all[before.len() as int] == path);
            }
        }
        if all.contains(path) {
            let k = all.index_of(path);
            if k < before.len() {
                assert(before[k] == path);
            } else {
                assert(entry_path(folder, last) == path);
            }
        }
    }
}

/// Where one entry alone begins with the last part of a path, the path completes to it.
pub proof fn law_only_entry_is_taken(
    folder: Seq<char>,
    rest: Seq<char>,
    entry: FolderEntry,
    entries: Seq<FolderEntry>,
)
    requires
        !rest.contains('/'),
        path_candidates(entries, folder.push('/'), rest) == seq![entry_path(folder.push('/'), entry)],
        entry.name@.len() >= rest.len(),
    ensures
        completed_path(folder.push('/') + rest, Some(entries)) == entry_path(
            folder.push('/'),
            entry,
        ),
{
    let path = folder.push('/') + rest;
    law_folder_ends_with_the_last_slash(folder, rest);
    assert(path.skip(folder.push('/').len() as int) =~= rest);
    let found = path_candidates(entries, folder.push('/'), rest);
    law_sorting_orders(found);
    reveal_with_fuel(sorted, 2);
    assert(found.drop_last() =~= Seq::<Seq<char>>::empty());
    assert(sorted(found) =~= found);
}

/// A path whose folder cannot be read, or has no entry that fits, stays as it is.
pub proof fn law_unreadable_folders_complete_nothing(path: Seq<char>, entries: Seq<FolderEntry>)
    ensures
        completed_path(path, None) == path,
        path_candidates(
            entries,
            folder_part(path),
            path.skip(folder_part(path).len() as int),
        ).len() == 0 ==> completed_path(path, Some(entries)) == path,
{
}

} // verus!
