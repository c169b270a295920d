//! What the handling of texts, numbers and paths comes to.

use crate::integers::{all_digits, digits_value, is_digit, written};
use crate::ipc::ContentLayout;
use crate::layout::{
    bare_back, bare_front, component, component_char, is_edge, layout_renames, plain_segment,
    rename_target, shared_root, typed_segments, usable_component, walk, wrapped,
};
use crate::paths::{
    bare_path, below, filled, joined, path_name, path_parent, segments_of, upto_slash,
};
use crate::text::{
    decimal, digit_char, filled_lines, is_space, lemma_join_split, lemma_split_around,
    lemma_split_nonempty, lemma_split_whole, precedes, split, trim, trim_back, trim_back_char,
    trim_front,
};
use vstd::prelude::*;

verus! {

// ----- white space -----

/// A text of white space only.
pub open spec fn all_space(s: Seq<char>) -> bool {
    forall|i: int| 0 <= i < s.len() ==> is_space(#[trigger] s[i])
}

/// What is taken from the front is white space.
proof fn lemma_trim_front(s: Seq<char>)
    ensures
        trim_front(s).len() <= s.len(),
        s == s.take(s.len() - trim_front(s).len()) + trim_front(s),
        all_space(s.take(s.len() - trim_front(s).len())),
        trim_front(s).len() > 0 ==> !is_space(trim_front(s)[0]),
    decreases s.len(),
{
    if s.len() > 0 && is_space(s[0]) {
        let rest = s.skip(1);
        lemma_trim_front(rest);
        let k = rest.len() - trim_front(rest).len();
        assert(s.take(k + 1) =~= seq![s[0]] + rest.take(k));
        assert(s =~= seq![s[0]] + rest);
        assert(seq![s[0]] + (rest.take(k) + trim_front(rest)) =~= s.take(k + 1) + trim_front(s));
        assert forall|i: int| 0 <= i < k + 1 implies is_space(#[trigger] s.take(k + 1)[i]) by {
            if i > 0 {
                assert(rest.take(k)[i - 1] == s[i]);
            }
        }
    } else {
        assert(s.take(0) + s =~= s);
    }
}

/// What is taken from the back is white space.
proof fn lemma_trim_back(s: Seq<char>)
    ensures
        trim_back(s).len() <= s.len(),
        s == trim_back(s) + s.skip(trim_back(s).len() as int),
        all_space(s.skip(trim_back(s).len() as int)),
        trim_back(s).len() > 0 ==> !is_space(trim_back(s).last()) && trim_back(s)[0] == s[0],
    decreases s.len(),
{
    if s.len() > 0 && is_space(s.last()) {
        let init = s.drop_last();
        lemma_trim_back(init);
        let k = trim_back(init).len() as int;
        assert(s.skip(k) =~= init.skip(k).push(s.last()));
        assert(s =~= init.push(s.last()));
        assert((trim_back(init) + init.skip(k)).push(s.last()) =~= trim_back(s) + s.skip(k));
        assert forall|i: int| 0 <= i < s.skip(k).len() implies is_space(#[trigger] s.skip(k)[i]) by {
            if i < init.skip(k).len() {
                assert(init.skip(k)[i] == s.skip(k)[i]);
            }
        }
    } else {
        assert(s + s.skip(s.len() as int) =~= s);
    }
}

/// A trimmed text neither begins nor ends with white space, and only white space was around it.
pub proof fn law_trimming_takes_white_space(s: Seq<char>)
    ensures
        trim(s).len() > 0 ==> !is_space(trim(s)[0]) && !is_space(trim(s).last()),
        exists|a: Seq<char>, b: Seq<char>|
            #![trigger all_space(a), all_space(b)]
            all_space(a) && all_space(b) && s == a + trim(s) + b,
{
    lemma_trim_front(s);
    let mid = trim_front(s);
    lemma_trim_back(mid);
    let a = s.take(s.len() - mid.len());
    let b = mid.skip(trim(s).len() as int);
    assert(all_space(a) && all_space(b));
    assert(s =~= a + trim(s) + b);
}

/// The lines that are kept are those that hold more than white space, trimmed.
pub proof fn law_filled_lines_are_kept(lines: Seq<Seq<char>>, line: Seq<char>)
    ensures
        filled_lines(lines).contains(line) <==> line.len() > 0 && exists|i: int|
            0 <= i < lines.len() && trim(#[trigger] lines[i]) == line,
        filled_lines(lines).len() <= lines.len(),
    decreases lines.len(),
{
    if lines.len() > 0 {
        let init = lines.drop_last();
        let before = filled_lines(init);
        let all = filled_lines(lines);
        law_filled_lines_are_kept(init, line);
        if before.contains(line) {
            let i = choose|i: int| 0 <= i < init.len() && trim(#[trigger] init[i]) == line;
            assert(lines[i] == init[i]);
            assert(all[before.index_of(line)] == line);
        }
        if line.len() > 0 && exists|i: int| 0 <= i < lines.len() && trim(#[trigger] lines[i]) == line {
            let i = choose|i: int| 0 <= i < lines.len() && trim(#[trigger] lines[i]) == line;
            if i < init.len() {
                assert(init[i] == lines[i]);
            } else {
                assert(all[before.len() as int] == line);
            }
        }
        if all.contains(line) {
            let k = all.index_of(line);
            if k < before.len() {
                assert(before[k] == line);
            } else {
                assert(trim(lines[lines.len() - 1]) == line);
            }
        }
    }
}

/// Trimming a character from the end leaves a text that does not end with it, and nothing else
/// is taken.
pub proof fn law_trimming_a_character(s: Seq<char>, c: char)
    ensures
        trim_back_char(s, c).len() > 0 ==> trim_back_char(s, c).last() != c,
        trim_back_char(s, c).len() <= s.len(),
        trim_back_char(s, c) == s.take(trim_back_char(s, c).len() as int),
        forall|i: int| trim_back_char(s, c).len() <= i < s.len() ==> #[trigger] s[i] == c,
    decreases s.len(),
{
    if s.len() > 0 && s.last() == c {
        let init = s.drop_last();
        law_trimming_a_character(init, c);
        assert forall|i: int| trim_back_char(s, c).len() <= i < s.len() implies #[trigger] s[i]
            == c by {
            if i < init.len() {
                assert(init[i] == s[i]);
            }
        }
        assert(init.take(trim_back_char(s, c).len() as int) =~= s.take(
            trim_back_char(s, c).len() as int,
        ));
    } else {
        assert(s.take(s.len() as int) =~= s);
    }
}

// ----- numbers -----

/// The digits of a number.
pub(crate) proof fn lemma_decimal_digits(n: int)
    requires
        0 <= n,
    ensures
        all_digits(decimal(n)),
        digits_value(decimal(n)) == n,
        n >= 10 ==> decimal(n)[0] != '0',
        n > 0 ==> decimal(n)[0] != '0',
    decreases n,
{
    if n < 10 {
        let s = decimal(n);
        reveal_with_fuel(digits_value, 2);
        assert(s =~= seq![digit_char(n)]);
        assert(s.drop_last() =~= Seq::<char>::empty());
        assert(s.last() == digit_char(n));
    } else {
        lemma_decimal_digits(n / 10);
        let s = decimal(n);
        let before = decimal(n / 10);
        assert(s.drop_last() =~= before);
        assert(s.last() == digit_char(n % 10));
        assert(s[0] == before[0]);
        assert forall|i: int| 0 <= i < s.len() implies is_digit(#[trigger] s[i]) by {
            if i < before.len() {
                assert(s[i] == before[i]);
            }
        }
    }
}

/// A number that is written in decimal is read back, and no zero stands before it.
pub proof fn law_decimals_are_read_back(n: int)
    ensures
        written(decimal(n), true) == Some(n),
        n >= 0 ==> written(decimal(n), false) == Some(n),
        n > 0 ==> decimal(n)[0] != '0',
{
    if n >= 0 {
        lemma_decimal_digits(n);
    } else {
        lemma_decimal_digits(-n);
        let s = decimal(n);
        assert(s[0] == '-');
        assert(s.skip(1) =~= decimal(-n));
        assert(!is_digit(s[0]));
    }
}

/// Numbers that are written alike are the same.
pub proof fn law_decimals_differ(a: int, b: int)
    ensures
        decimal(a) == decimal(b) ==> a == b,
{
    law_decimals_are_read_back(a);
    law_decimals_are_read_back(b);
}

// ----- order -----

/// Of two texts that share their beginning the one with the smaller next character comes first,
/// and a text comes before those that continue it.
pub proof fn law_texts_are_ordered_by_the_first_difference(
    start: Seq<char>,
    a: Seq<char>,
    b: Seq<char>,
)
    ensures
        a.len() > 0 && b.len() > 0 && a[0] != b[0] ==> (precedes(start + a, start + b) <==> a[0]
            < b[0]),
        b.len() > 0 ==> precedes(start, start + b),
        !precedes(start + b, start),
    decreases start.len(),
{
    if start.len() == 0 {
        assert(start + a =~= a);
        assert(start + b =~= b);
    } else {
        let rest = start.skip(1);
        law_texts_are_ordered_by_the_first_difference(rest, a, b);
        assert((start + a).skip(1) =~= rest + a);
        assert((start + b).skip(1) =~= rest + b);
        assert((start + a)[0] == start[0]);
        assert((start + b)[0] == start[0]);
    }
}

// ----- paths -----

/// Where the last slash of a path stands.
proof fn lemma_upto_slash(folder: Seq<char>, name: Seq<char>)
    requires
        !name.contains('/'),
    ensures
        upto_slash(folder.push('/') + name) == folder.len() + 1,
    decreases name.len(),
{
    let p = folder.push('/') + name;
    if name.len() == 0 {
        assert(p =~= folder.push('/'));
    } else {
        let init = name.drop_last();
        assert(!init.contains('/')) by {
            if init.contains('/') {
                assert(name[init.index_of('/')] == '/');
            }
        }
        lemma_upto_slash(folder, init);
        assert(name.contains(name[name.len() - 1]));
        assert(p.last() != '/');
        assert(p.drop_last() =~= folder.push('/') + init);
    }
}

/// A path that ends in a plain segment.
pub open spec fn ends_plainly(folder: Seq<char>) -> bool {
    &&& folder.len() > 0
    &&& folder.last() != '/'
    &&& !(folder.last() == '.' && folder.len() > 1 && folder[folder.len() - 2] == '/')
}

/// A file in a folder has the folder as its parent and its name as its last segment.
pub proof fn law_paths_are_taken_apart(folder: Seq<char>, name: Seq<char>)
    requires
        ends_plainly(folder),
        name.len() > 0,
        !name.contains('/'),
        name != "."@,
        name != ".."@,
    ensures
        path_parent(folder + "/"@ + name) == Some(folder),
        path_name(folder + "/"@ + name) == Some(name),
        path_name(name) == Some(name),
{
    reveal_strlit("/");
    reveal_strlit(".");
    let p = folder + "/"@ + name;
    assert(p =~= folder.push('/') + name);
    assert(name.contains(name[name.len() - 1]));
    assert(p.last() == name.last());
    assert(!(p.last() == '.' && p[p.len() - 2] == '/')) by {
        if p.last() == '.' && p[p.len() - 2] == '/' {
            if name.len() > 1 {
                assert(p[p.len() - 2] == name[name.len() - 2]);
                assert(name.contains(name[name.len() - 2]));
            }
            assert(name =~= "."@);
        }
    }
    assert(bare_path(p) == p);
    lemma_upto_slash(folder, name);
    assert(p.skip(folder.len() as int + 1) =~= name);
    assert(p.take(folder.len() as int + 1) =~= folder.push('/'));
    assert(folder.push('/').drop_last() =~= folder);
    assert(bare_path(folder.push('/')) == bare_path(folder));
    assert(p.len() > 1);
    // a bare name
    assert(bare_path(name) == name) by {
        if name.len() > 1 {
            assert(name.contains(name[name.len() - 2]));
        }
    }
    lemma_no_slash(name);
    assert(name.skip(0) =~= name);
}

/// A text without a slash has none up to its last.
proof fn lemma_no_slash(name: Seq<char>)
    requires
        !name.contains('/'),
    ensures
        upto_slash(name) == 0,
    decreases name.len(),
{
    if name.len() > 0 {
        let init = name.drop_last();
        assert(name.contains(name[name.len() - 1]));
        assert(!init.contains('/')) by {
            if init.contains('/') {
                assert(name[init.index_of('/')] == '/');
            }
        }
        lemma_no_slash(init);
    }
}

/// A path leads to the same place with a slash behind it, or a slash and a dot.
pub proof fn law_slashes_behind_paths_say_nothing(path: Seq<char>)
    requires
        path.len() > 0,
    ensures
        path_parent(path.push('/')) == path_parent(path),
        path_name(path.push('/')) == path_name(path),
        path_parent(path.push('/').push('.')) == path_parent(path),
        path_name(path.push('/').push('.')) == path_name(path),
{
    let once = path.push('/');
    let twice = once.push('.');
    assert(once.drop_last() =~= path);
    assert(twice.drop_last() =~= once);
    assert(bare_path(once) == bare_path(path));
    assert(bare_path(twice) == bare_path(once));
}

/// A name is put below a folder with one slash between them; an absolute path stays as it is.
pub proof fn law_paths_are_put_together(folder: Seq<char>, path: Seq<char>)
    ensures
        folder.len() > 0 && folder.last() != '/' ==> below(folder, path) == folder + "/"@ + path,
        folder.len() > 0 && folder.last() == '/' ==> below(folder, path) == folder + path,
        folder.len() == 0 ==> below(folder, path) == path,
        path.len() > 0 && path[0] == '/' ==> joined(folder, path) == path,
        path.len() == 0 || path[0] != '/' ==> joined(folder, path) == below(folder, path),
{
    reveal_strlit("/");
    if folder.len() > 0 {
        let end = folder.subrange(folder.len() - 1, folder.len() as int);
        assert(end[0] == folder.last());
        if folder.last() == '/' {
            assert(end =~= "/"@);
        } else {
            assert(end[0] != "/"@[0]);
        }
    } else {
        assert(folder + path =~= path);
    }
    if path.len() > 0 {
        let start = path.subrange(0, 1);
        assert(start[0] == path[0]);
        if path[0] == '/' {
            assert(start =~= "/"@);
        } else {
            assert(start[0] != "/"@[0]);
        }
    }
}

/// The segments of a path are what stands between its slashes, without the empty ones.
pub proof fn law_segments_lie_between_slashes(path: Seq<char>, part: Seq<char>)
    ensures
        segments_of(path).contains(part) <==> part.len() > 0 && split(path, '/').contains(part),
{
    lemma_filled(split(path, '/'), part);
}

/// What is filled is kept.
proof fn lemma_filled(parts: Seq<Seq<char>>, part: Seq<char>)
    ensures
        filled(parts).contains(part) <==> part.len() > 0 && parts.contains(part),
    decreases parts.len(),
{
    if parts.len() > 0 {
        let init = parts.drop_last();
        let before = filled(init);
        lemma_filled(init, part);
        if parts.contains(part) {
            let k = parts.index_of(part);
            if k < init.len() {
                assert(init[k] == part);
            }
        }
        if init.contains(part) {
            assert(parts[init.index_of(part)] == part);
        }
        if parts.last().len() > 0 {
            let all = filled(parts);
            assert(all[before.len() as int] == parts.last());
            if before.contains(part) {
                assert(all[before.index_of(part)] == part);
            }
            if all.contains(part) {
                let k = all.index_of(part);
                if k < before.len() {
                    assert(before[k] == part);
                }
            }
            assert(parts[parts.len() - 1] == parts.last());
        }
    }
}

// ----- names from torrents -----

/// A name that has no separator and no white space or dot at its ends is a component as it is.
pub proof fn law_plain_names_are_kept(name: Seq<char>)
    requires
        name.len() > 0,
        !name.contains('/') && !name.contains('\\') && !name.contains('\0'),
        !is_space(name[0]) && name[0] != '.',
        !is_space(name.last()) && name.last() != '.',
    ensures
        component(name) == name,
{
    assert forall|i: int| 0 <= i < name.len() implies component_char(#[trigger] name[i]) == name[i] by {
        assert(name.contains(name[i]));
    }
    assert(name.map_values(|c: char| component_char(c)) =~= name);
}

/// Each separator in a name becomes an underscore, wherever it stands.
pub proof fn law_separators_are_replaced(a: Seq<char>, sep: char, b: Seq<char>)
    requires
        sep == '/' || sep == '\\' || sep == '\0',
    ensures
        component(a.push(sep) + b) == component(a.push('_') + b),
{
    assert((a.push(sep) + b).map_values(|c: char| component_char(c)) =~= (a.push('_')
        + b).map_values(|c: char| component_char(c)));
}

/// White space and dots around a name are left out.
pub proof fn law_edges_are_left_out(c: char, name: Seq<char>)
    requires
        is_space(c) || c == '.',
    ensures
        component(seq![c] + name) == component(name),
        usable_component(component(name)) ==> component(name.push(c)) == component(name),
{
    let mapped = name.map_values(|x: char| component_char(x));
    assert((seq![c] + name).map_values(|x: char| component_char(x)) =~= seq![c] + mapped);
    assert((seq![c] + mapped).skip(1) =~= mapped);
    assert(name.push(c).map_values(|x: char| component_char(x)) =~= mapped.push(c));
    lemma_bare_front_push(mapped, c);
    let front = bare_front(mapped);
    if front.len() > 0 {
        assert(front.push(c).drop_last() =~= front);
    }
}

/// A character at the end does not touch the front.
proof fn lemma_bare_front_push(s: Seq<char>, c: char)
    ensures
        bare_front(s).len() > 0 ==> bare_front(s.push(c)) == bare_front(s).push(c),
        bare_front(s).len() == 0 ==> bare_back(bare_front(s)).len() == 0,
    decreases s.len(),
{
    if s.len() > 0 && is_edge(s[0]) {
        lemma_bare_front_push(s.skip(1), c);
        assert(s.push(c).skip(1) =~= s.skip(1).push(c));
    }
}

// ----- layouts -----

/// Files that all lie in one folder have it as their root.
pub proof fn law_files_of_one_folder_share_it(
    files: Seq<Seq<char>>,
    root: Seq<char>,
    rests: Seq<Seq<char>>,
)
    requires
        files.len() == rests.len() > 0,
        root.len() > 0,
        !root.contains('/'),
        forall|i: int| 0 <= i < files.len() ==> #[trigger] files[i] == root.push('/') + rests[i],
    ensures
        shared_root(files) == Some(root),
{
    assert forall|i: int| 0 <= i < files.len() implies (#[trigger] files[i]).contains('/') && split(
        files[i],
        '/',
    )[0] == root by {
        assert(files[i][root.len() as int] == '/');
        lemma_split_around(root, '/', rests[i]);
        lemma_split_whole(root, '/');
    }
    assert(files[0].contains('/'));
}

/// Files of which one lies elsewhere share no root.
pub proof fn law_files_of_two_folders_share_none(files: Seq<Seq<char>>, i: int, j: int)
    requires
        0 <= i < files.len(),
        0 <= j < files.len(),
        !files[i].contains('/') || split(files[i], '/')[0] != split(files[j], '/')[0],
    ensures
        shared_root(files) is None,
{
}

/// Without a folder of their own the files of a torrent of several lose the folder that they
/// share, and nothing else of their paths.
pub proof fn law_shared_folder_is_taken_away(
    files: Seq<Seq<char>>,
    name: Seq<char>,
    root: Seq<char>,
    rests: Seq<Seq<char>>,
    i: int,
)
    requires
        files.len() == rests.len() > 1,
        root.len() > 0,
        !root.contains('/'),
        forall|k: int| 0 <= k < files.len() ==> #[trigger] files[k] == root.push('/') + rests[k],
        0 <= i < files.len(),
    ensures
        layout_renames(files, name, ContentLayout::Never).len() == files.len(),
        layout_renames(files, name, ContentLayout::Never)[i] == (i, rests[i]),
{
    law_files_of_one_folder_share_it(files, root, rests);
    assert(files[i].skip(root.len() as int + 1) =~= rests[i]);
}

/// With a folder always the one file of a torrent is put into a folder of the torrent's name.
pub proof fn law_single_file_gets_a_folder(folder: Seq<char>, file: Seq<char>, name: Seq<char>)
    requires
        usable_component(component(name)),
        !file.contains('/'),
    ensures
        ({
            let target = component(name) + "/"@ + file;
            let inside = folder.push('/') + file;
            &&& layout_renames(seq![file], name, ContentLayout::Always) == seq![(0int, target)]
            &&& inside != target ==> layout_renames(seq![inside], name, ContentLayout::Always)
                == seq![(0int, target)]
            &&& layout_renames(seq![target], name, ContentLayout::Always).len() == 0
        }),
{
    reveal_strlit("/");
    lemma_split_whole(file, '/');
    lemma_split_around(folder, '/', file);
    lemma_split_nonempty(folder, '/');
    let inside = folder.push('/') + file;
    let target = component(name) + "/"@ + file;
    assert((split(folder, '/') + split(file, '/')).last() == file);
    assert(wrapped(file, name) == target);
    assert(target.len() > file.len());
    assert(wrapped(inside, name) == target);
    lemma_split_around(component(name), '/', file);
    lemma_split_nonempty(component(name), '/');
    assert(target =~= component(name).push('/') + file);
    assert((split(component(name), '/') + split(file, '/')).last() == file);
    assert(wrapped(target, name) == target);
}

// ----- typed names -----

/// A walk along plain segments goes down one folder at a time; `..` takes the last step back,
/// `.` and empty segments do nothing.
pub proof fn law_walks_go_step_by_step(steps: Seq<Seq<char>>, segment: Seq<char>)
    requires
        walk(steps) is Some,
        plain_segment(segment),
    ensures
        walk(steps.push(segment)) == Some(walk(steps)->0.push(segment)),
        walk(steps.push("."@)) == walk(steps),
        walk(steps.push(Seq::empty())) == walk(steps),
        walk(steps.push(segment).push(".."@)) == walk(steps),
        walk(steps)->0.len() == 0 ==> walk(steps.push(".."@)) is None,
        walk(steps)->0.len() > 0 ==> walk(steps.push(".."@)) == Some(walk(steps)->0.drop_last()),
{
    reveal_strlit(".");
    reveal_strlit("..");
    assert("."@.len() == 1);
    assert(".."@.len() == 2);
    let down = steps.push(segment);
    assert(down.drop_last() =~= steps);
    assert(steps.push("."@).drop_last() =~= steps);
    assert(steps.push(".."@).drop_last() =~= steps);
    assert(steps.push(Seq::empty()).drop_last() =~= steps);
    assert(down.push(".."@).drop_last() =~= down);
    assert(walk(steps)->0.push(segment).drop_last() =~= walk(steps)->0);
}

/// A walk along plain segments alone keeps them all.
proof fn lemma_plain_walk(steps: Seq<Seq<char>>)
    requires
        forall|i: int| 0 <= i < steps.len() ==> plain_segment(#[trigger] steps[i]),
    ensures
        walk(steps) == Some(steps),
    decreases steps.len(),
{
    if steps.len() > 0 {
        let init = steps.drop_last();
        assert forall|i: int| 0 <= i < init.len() implies plain_segment(#[trigger] init[i]) by {
            assert(init[i] == steps[i]);
        }
        lemma_plain_walk(init);
        assert(plain_segment(steps[steps.len() - 1]));
        assert(init.push(steps.last()) =~= steps);
    } else {
        assert(steps =~= Seq::<Seq<char>>::empty());
    }
}

/// A plain name that is typed for a file in a folder names a file in that folder.
pub proof fn law_typed_names_lie_in_the_same_folder(parent: Seq<char>, name: Seq<char>)
    requires
        forall|i: int|
            0 <= i < split(parent, '/').len() ==> plain_segment(#[trigger] split(parent, '/')[i]),
        plain_segment(name),
        !name.contains('\0'),
        trim(name) == name,
    ensures
        rename_target(parent, name) == Ok::<Seq<char>, Seq<char>>(parent + "/"@ + name),
{
    reveal_strlit("/");
    let steps = typed_segments(parent, name);
    let left = split(parent, '/');
    lemma_split_whole(name, '/');
    lemma_split_nonempty(parent, '/');
    assert(steps =~= left.push(name));
    assert forall|i: int| 0 <= i < steps.len() implies plain_segment(#[trigger] steps[i]) by {
        if i < left.len() {
            assert(steps[i] == left[i]);
        }
    }
    lemma_plain_walk(steps);
    lemma_join_split(parent, '/');
    assert("/"@ =~= seq!['/']);
    assert(steps.drop_last() =~= left);
}

/// What is typed for a file at the root names a file at the root.
pub proof fn law_typed_names_at_the_root(name: Seq<char>)
    requires
        plain_segment(name),
        !name.contains('\0'),
        trim(name) == name,
    ensures
        rename_target(Seq::empty(), name) == Ok::<Seq<char>, Seq<char>>(name),
{
    let steps = typed_segments(Seq::empty(), name);
    lemma_split_whole(name, '/');
    assert(split(Seq::<char>::empty(), '/') =~= seq![Seq::<char>::empty()]);
    assert(steps =~= seq![Seq::<char>::empty(), name]);
    reveal_with_fuel(walk, 3);
    assert(steps.drop_last() =~= seq![Seq::<char>::empty()]);
    assert(steps.drop_last().drop_last() =~= Seq::<Seq<char>>::empty());
    assert(walk(steps) == Some(Seq::<Seq<char>>::empty().push(name)));
}

} // verus!
