//! Renames inside a torrent, as the daemon checks them before it hands them to the session.

use crate::bridge::TorrentFile;
use crate::layout::rename_view;
use crate::names::{list_contains, NameSet};
use crate::text::{
    chars_of, concat2, concat3, concat4, contains_char, decimal, decimal_u64, has_prefix, is_empty,
    same, split, split_on, starts_with, strip_prefix, texts, trim_back_char, trimmed_end_of,
};
use vstd::prelude::*;

verus! {

/// The paths of a torrent's files.
pub open spec fn file_paths(files: Seq<TorrentFile>) -> Seq<Seq<char>> {
    files.map_values(|f: TorrentFile| f.path@)
}

/// Why a name cannot be a path below the save folder, where it cannot.
pub open spec fn name_refusal(name: Seq<char>) -> Option<Seq<char>> {
    if name.len() == 0 {
        Some("name cannot be empty"@)
    } else if has_prefix(name, "/"@) {
        Some("name must be relative, not absolute"@)
    } else if split(name, '/').contains(".."@) {
        Some("name cannot contain '..'"@)
    } else if name.contains('\0') {
        Some("name cannot contain null bytes"@)
    } else {
        None
    }
}

/// Refuses names that would lead out of the save folder.
pub fn validate_rename_name(new_name: &str) -> (r: Result<(), String>)
    ensures
        match r {
            Ok(_) => name_refusal(new_name@) is None,
            Err(reason) => name_refusal(new_name@) == Some(reason@),
        },
{
    if is_empty(new_name) {
        return Err("name cannot be empty".to_owned());
    }
    if starts_with(new_name, "/") {
        return Err("name must be relative, not absolute".to_owned());
    }
    let segments = split_on(new_name, '/');
    if list_contains(&segments, "..") {
        return Err("name cannot contain '..'".to_owned());
    }
    if contains_char(new_name, '\0') {
        return Err("name cannot contain null bytes".to_owned());
    }
    Ok(())
}

// ----- one file -----

/// What stands in the way of a file `mine` taking the path `name`, among the first `n` files.
pub open spec fn collision(files: Seq<Seq<char>>, mine: int, name: Seq<char>, n: int) -> Option<
    Seq<char>,
>
    decreases n,
{
    if n <= 0 {
        None
    } else {
        let k = n - 1;
        match collision(files, mine, name, k) {
            Some(reason) => Some(reason),
            None => if k == mine {
                None
            } else if files[k] == name {
                Some("would collide with existing file at index "@ + decimal(k) + ": "@ + name)
            } else if has_prefix(files[k], name + "/"@) {
                Some(
                    "\""@ + name + "\" is used as a directory by file "@ + (decimal(k) + ": "@
                        + files[k]),
                )
            } else {
                None
            },
        }
    }
}

/// Refuses a new path for a file that another file has, or has as a folder.
pub fn check_rename_collision(files: &[TorrentFile], file_index: usize, new_name: &str) -> (r:
    Result<(), String>)
    ensures
        match r {
            Ok(_) => collision(
                file_paths(files@),
                file_index as int,
                new_name@,
                files@.len() as int,
            ) is None,
            Err(reason) => collision(
                file_paths(files@),
                file_index as int,
                new_name@,
                files@.len() as int,
            ) == Some(reason@),
        },
{
    let folder = concat2(new_name, "/");
    let ghost paths = file_paths(files@);
    let mut i: usize = 0;
    while i < files.len()
        invariant
            i <= files@.len(),
            paths == file_paths(files@),
            folder@ == new_name@ + "/"@,
            collision(paths, file_index as int, new_name@, i as int) is None,
        decreases files@.len() - i,
    {
        if i != file_index {
            let number = decimal_u64(i as u64);
            if same(files[i].path.as_str(), new_name) {
                let reason = concat4(
                    "would collide with existing file at index ",
                    number.as_str(),
                    ": ",
                    new_name,
                );
                proof {
                    lemma_collision_stays(paths, file_index as int, new_name@, i + 1, files@.len() as int);
                }
                return Err(reason);
            }
            if starts_with(files[i].path.as_str(), folder.as_str()) {
                let tail = concat3(number.as_str(), ": ", files[i].path.as_str());
                let reason = concat4(
                    "\"",
                    new_name,
                    "\" is used as a directory by file ",
                    tail.as_str(),
                );
                proof {
                    lemma_collision_stays(paths, file_index as int, new_name@, i + 1, files@.len() as int);
                }
                return Err(reason);
            }
        }
        i = i + 1;
    }
    Ok(())
}

/// The first thing in the way is what is told.
proof fn lemma_collision_stays(
    files: Seq<Seq<char>>,
    mine: int,
    name: Seq<char>,
    m: int,
    n: int,
)
    requires
        0 <= m <= n,
        collision(files, mine, name, m) is Some,
    ensures
        collision(files, mine, name, n) == collision(files, mine, name, m),
    decreases n,
{
    if m < n {
        lemma_collision_stays(files, mine, name, m, n - 1);
    }
}

/// A rename that is let through takes a path that no other file has, and that no other file has
/// as a folder.
pub proof fn law_accepted_rename_is_free(files: Seq<Seq<char>>, mine: int, name: Seq<char>, n: int)
    requires
        collision(files, mine, name, n) is None,
    ensures
        forall|k: int|
            0 <= k < n && k != mine ==> #[trigger] files[k] != name && !has_prefix(
                files[k],
                name + "/"@,
            ),
    decreases n,
{
    if n > 0 {
        law_accepted_rename_is_free(files, mine, name, n - 1);
    }
}

// ----- a folder -----

/// The new path of a file when the folder `from` becomes `to`; `None` for files elsewhere.
pub open spec fn moved_path(path: Seq<char>, from: Seq<char>, to: Seq<char>) -> Option<Seq<char>> {
    if path == from || path == from + "/"@ {
        Some(to)
    } else if has_prefix(path, from + "/"@) {
        Some(to + "/"@ + path.skip(from.len() as int + 1))
    } else {
        None
    }
}

/// The file moves, and to a path that is allowed.
pub open spec fn movable(path: Seq<char>, from: Seq<char>, to: Seq<char>) -> bool {
    moved_path(path, from, to) matches Some(target) && name_refusal(target) is None
}

/// The files that move and their new paths, among the first `n`.
pub open spec fn folder_plan(files: Seq<Seq<char>>, from: Seq<char>, to: Seq<char>, n: int) -> Seq<
    (int, Seq<char>),
>
    decreases n,
{
    if n <= 0 {
        Seq::empty()
    } else {
        let before = folder_plan(files, from, to, n - 1);
        if movable(files[n - 1], from, to) {
            before.push((n - 1, moved_path(files[n - 1], from, to)->0))
        } else {
            before
        }
    }
}

/// The files whose new path is not allowed, with the reason, among the first `n`.
pub open spec fn folder_refused(
    files: Seq<Seq<char>>,
    from: Seq<char>,
    to: Seq<char>,
    n: int,
) -> Seq<(int, Seq<char>)>
    decreases n,
{
    if n <= 0 {
        Seq::empty()
    } else {
        let before = folder_refused(files, from, to, n - 1);
        match moved_path(files[n - 1], from, to) {
            Some(target) => match name_refusal(target) {
                Some(reason) => before.push((n - 1, reason)),
                None => before,
            },
            None => before,
        }
    }
}

/// The paths of the files that stay, among the first `n`.
pub open spec fn staying(files: Seq<Seq<char>>, from: Seq<char>, to: Seq<char>, n: int) -> Seq<
    Seq<char>,
>
    decreases n,
{
    if n <= 0 {
        Seq::empty()
    } else {
        let before = staying(files, from, to, n - 1);
        if movable(files[n - 1], from, to) {
            before
        } else {
            before.push(files[n - 1])
        }
    }
}

/// One of the first `n` planned renames has that target.
pub open spec fn planned(plan: Seq<(int, Seq<char>)>, n: int, target: Seq<char>) -> bool {
    exists|j: int| 0 <= j < n && (#[trigger] plan[j]).1 == target
}

/// The planned renames that clash, with the reason, among the first `n`.
pub open spec fn clashes(plan: Seq<(int, Seq<char>)>, stay: Seq<Seq<char>>, n: int) -> Seq<
    (int, Seq<char>),
>
    decreases n,
{
    if n <= 0 {
        Seq::empty()
    } else {
        let before = clashes(plan, stay, n - 1);
        let (file, target) = plan[n - 1];
        if stay.contains(target) {
            before.push((file, "would collide with existing file: "@ + target))
        } else if planned(plan, n - 1, target) {
            before.push((file, "two files would rename to same target: "@ + target))
        } else {
            before
        }
    }
}

/// What becomes of a request to rename a folder.
pub enum FolderOutcome {
    /// The request is refused as a whole.
    Refused(Seq<char>),
    /// Some files cannot be renamed, so none is.
    Rejected(Seq<(int, Seq<char>)>),
    /// The renames to carry out.
    Renames(Seq<(int, Seq<char>)>),
}

/// What becomes of renaming the folder `old_prefix` to `new_prefix`.
pub open spec fn folder_outcome(
    files: Seq<Seq<char>>,
    old_prefix: Seq<char>,
    new_prefix: Seq<char>,
) -> FolderOutcome {
    let from = trim_back_char(old_prefix, '/');
    let to = trim_back_char(new_prefix, '/');
    let n = files.len() as int;
    let plan = folder_plan(files, from, to, n);
    let refused = folder_refused(files, from, to, n);
    let stay = staying(files, from, to, n);
    let rejected = refused + clashes(plan, stay, plan.len() as int);
    match name_refusal(new_prefix) {
        Some(reason) => FolderOutcome::Refused(reason),
        None => if from.len() == 0 || to.len() == 0 {
            FolderOutcome::Refused("prefix cannot be empty"@)
        } else if plan.len() == 0 && refused.len() == 0 {
            FolderOutcome::Refused("no files matched prefix: "@ + old_prefix)
        } else if stay.contains(to) {
            FolderOutcome::Refused(
                "\""@ + to + "\" is already a file path \u{2014} cannot use it as a folder"@,
            )
        } else if rejected.len() > 0 {
            FolderOutcome::Rejected(rejected)
        } else {
            FolderOutcome::Renames(plan)
        },
    }
}

/// The renames that a folder rename comes to, or the files that stand in its way.
pub struct FolderRenames {
    pub renames: Vec<(usize, String)>,
    pub rejected: Vec<(usize, String)>,
}

/// The new path of a file when the folder `from` becomes `to`.
fn path_after(path: &str, from: &str, to: &str) -> (r: Option<String>)
    ensures
        r is Some <==> moved_path(path@, from@, to@) is Some,
        r matches Some(s) ==> moved_path(path@, from@, to@) == Some(s@),
{
    proof {
        reveal_strlit("/");
        assert(from@ != from@ + "/"@) by {
            assert((from@ + "/"@).len() == from@.len() + 1);
        }
    }
    if same(path, from) {
        return Some(to.to_owned());
    }
    let folder = concat2(from, "/");
    match strip_prefix(path, folder.as_str()) {
        Some(rest) => {
            if is_empty(rest.as_str()) {
                assert(path@ =~= folder@);
                Some(to.to_owned())
            } else {
                assert(path@ != folder@);
                Some(concat3(to, "/", rest.as_str()))
            }
        },
        None => {
            proof {
                if path@ == folder@ {
                    assert(path@.subrange(0, folder@.len() as int) =~= folder@);
                }
            }
            None
        },
    }
}

/// Plans the rename of a folder. Either every file in it can be renamed, or none is.
pub fn plan_folder_rename(files: &[TorrentFile], old_prefix: &str, new_prefix: &str) -> (r: Result<
    FolderRenames,
    String,
>)
    ensures
        match r {
            Err(reason) => folder_outcome(file_paths(files@), old_prefix@, new_prefix@)
                == FolderOutcome::Refused(reason@),
            Ok(out) => {
                ||| out.rejected@.len() > 0 && out.renames@.len() == 0 && folder_outcome(
                    file_paths(files@),
                    old_prefix@,
                    new_prefix@,
                ) == FolderOutcome::Rejected(rename_view(out.rejected@))
                ||| out.rejected@.len() == 0 && folder_outcome(
                    file_paths(files@),
                    old_prefix@,
                    new_prefix@,
                ) == FolderOutcome::Renames(rename_view(out.renames@))
            },
        },
{
    if let Err(reason) = validate_rename_name(new_prefix) {
        return Err(reason);
    }
    let from = trimmed_end_of(old_prefix, '/');
    let to = trimmed_end_of(new_prefix, '/');
    if is_empty(from.as_str()) || is_empty(to.as_str()) {
        return Err("prefix cannot be empty".to_owned());
    }
    let ghost paths = file_paths(files@);
    let mut plan: Vec<(usize, String)> = Vec::new();
    let mut rejected: Vec<(usize, String)> = Vec::new();
    let mut stay: Vec<String> = Vec::new();
    let mut i: usize = 0;
    assert(rename_view(plan@) =~= Seq::<(int, Seq<char>)>::empty());
    assert(rename_view(rejected@) =~= Seq::<(int, Seq<char>)>::empty());
    assert(texts(stay@) =~= Seq::<Seq<char>>::empty());
    while i < files.len()
        invariant
            i <= files@.len(),
            paths == file_paths(files@),
            rename_view(plan@) == folder_plan(paths, from@, to@, i as int),
            rename_view(rejected@) == folder_refused(paths, from@, to@, i as int),
            texts(stay@) == staying(paths, from@, to@, i as int),
        decreases files@.len() - i,
    {
        let ghost plan0 = plan@;
        let ghost rejected0 = rejected@;
        let ghost stay0 = stay@;
        let path = files[i].path.as_str();
        assert(paths[i as int] == path@);
        match path_after(path, from.as_str(), to.as_str()) {
            Some(target) => {
                match validate_rename_name(target.as_str()) {
                    Ok(_) => {
                        plan.push((i, target));
                        assert(rename_view(plan@) =~= rename_view(plan0).push((i as int, target@)));
                    },
                    Err(reason) => {
                        rejected.push((i, reason));
                        stay.push(files[i].path.clone());
                        assert(rename_view(rejected@) =~= rename_view(rejected0).push(
                            (i as int, reason@),
                        ));
                        assert(texts(stay@) =~= texts(stay0).push(path@));
                    },
                }
            },
            None => {
                stay.push(files[i].path.clone());
                assert(texts(stay@) =~= texts(stay0).push(path@));
            },
        }
        i = i + 1;
    }
    if plan.len() == 0 && rejected.len() == 0 {
        return Err(concat2("no files matched prefix: ", old_prefix));
    }
    if list_contains(&stay, to.as_str()) {
        return Err(
            concat3("\"", to.as_str(), "\" is already a file path \u{2014} cannot use it as a folder"),
        );
    }
    let ghost refused = rename_view(rejected@);
    let ghost targets = rename_view(plan@);
    let mut k: usize = 0;
    assert(refused + clashes(targets, texts(stay@), 0) =~= refused);
    while k < plan.len()
        invariant
            k <= plan@.len(),
            targets == rename_view(plan@),
            rename_view(rejected@) == refused + clashes(targets, texts(stay@), k as int),
        decreases plan@.len() - k,
    {
        let ghost rejected0 = rejected@;
        let target = plan[k].1.as_str();
        assert(targets[k as int] == (plan@[k as int].0 as int, target@));
        if list_contains(&stay, target) {
            let reason = concat2("would collide with existing file: ", target);
            rejected.push((plan[k].0, reason));
            assert(rename_view(rejected@) =~= rename_view(rejected0).push(
                (plan@[k as int].0 as int, reason@),
            ));
        } else if planned_before(&plan, k) {
            let reason = concat2("two files would rename to same target: ", target);
            rejected.push((plan[k].0, reason));
            assert(rename_view(rejected@) =~= rename_view(rejected0).push(
                (plan@[k as int].0 as int, reason@),
            ));
        }
        assert(rename_view(rejected@) =~= refused + clashes(targets, texts(stay@), k + 1));
        k = k + 1;
    }
    if rejected.len() > 0 {
        Ok(FolderRenames { renames: Vec::new(), rejected })
    } else {
        assert(rename_view(rejected@).len() == 0);
        Ok(FolderRenames { renames: plan, rejected })
    }
}

/// Whether an earlier entry of the plan has the target of entry `k`.
fn planned_before(plan: &Vec<(usize, String)>, k: usize) -> (r: bool)
    requires
        k < plan@.len(),
    ensures
        r == planned(rename_view(plan@), k as int, plan@[k as int].1@),
{
    let mut j: usize = 0;
    while j < k
        invariant
            j <= k < plan@.len(),
            forall|m: int|
                0 <= m < j ==> (#[trigger] rename_view(plan@)[m]).1 != plan@[k as int].1@,
        decreases k - j,
    {
        if same(plan[j].1.as_str(), plan[k].1.as_str()) {
            assert(rename_view(plan@)[j as int].1 == plan@[k as int].1@);
            return true;
        }
        j = j + 1;
    }
    false
}

/// What clashes among the first entries clashes in the whole.
proof fn lemma_clashes_grow(plan: Seq<(int, Seq<char>)>, stay: Seq<Seq<char>>, m: int, n: int)
    requires
        0 <= m <= n,
    ensures
        clashes(plan, stay, m).len() <= clashes(plan, stay, n).len(),
    decreases n,
{
    if m < n {
        lemma_clashes_grow(plan, stay, m, n - 1);
    }
}

/// The renames of a folder that are carried out have allowed targets, all different, and none
/// the path of a file that stays.
pub proof fn law_folder_renames_do_not_clash(
    files: Seq<Seq<char>>,
    old_prefix: Seq<char>,
    new_prefix: Seq<char>,
)
    ensures
        folder_outcome(files, old_prefix, new_prefix) matches FolderOutcome::Renames(plan) ==> {
            let from = trim_back_char(old_prefix, '/');
            let to = trim_back_char(new_prefix, '/');
            &&& plan.len() > 0
            &&& forall|i: int| 0 <= i < plan.len() ==> name_refusal((#[trigger] plan[i]).1) is None
            &&& forall|i: int, j: int|
                0 <= i < j < plan.len() ==> (#[trigger] plan[i]).1 != (#[trigger] plan[j]).1
            &&& forall|i: int|
                0 <= i < plan.len() ==> !staying(files, from, to, files.len() as int).contains(
                    (#[trigger] plan[i]).1,
                )
        },
{
    if let FolderOutcome::Renames(plan) = folder_outcome(files, old_prefix, new_prefix) {
        let from = trim_back_char(old_prefix, '/');
        let to = trim_back_char(new_prefix, '/');
        let n = files.len() as int;
        let stay = staying(files, from, to, n);
        let refused = folder_refused(files, from, to, n);
        let all = clashes(plan, stay, plan.len() as int);
        assert((refused + all).len() == 0);
        lemma_plan_allowed(files, from, to, n);
        assert forall|j: int| 0 <= j < plan.len() implies !stay.contains((#[trigger] plan[j]).1) && !planned(
            plan,
            j,
            plan[j].1,
        ) by {
            lemma_clashes_grow(plan, stay, j + 1, plan.len() as int);
        }
        assert forall|i: int, j: int| 0 <= i < j < plan.len() implies (#[trigger] plan[i]).1
            != (#[trigger] plan[j]).1 by {
            assert(!planned(plan, j, plan[j].1));
        }
    }
}

/// Every planned target is allowed.
proof fn lemma_plan_allowed(files: Seq<Seq<char>>, from: Seq<char>, to: Seq<char>, n: int)
    ensures
        forall|i: int|
            0 <= i < folder_plan(files, from, to, n).len() ==> name_refusal(
                (#[trigger] folder_plan(files, from, to, n)[i]).1,
            ) is None,
    decreases n,
{
    if n > 0 {
        lemma_plan_allowed(files, from, to, n - 1);
    }
}

/// A file that stays already lies in the folder `new_prefix`.
pub open spec fn merges_into(stay: Seq<Seq<char>>, new_prefix: Seq<char>) -> bool {
    exists|i: int| 0 <= i < stay.len() && has_prefix(#[trigger] stay[i], new_prefix + "/"@)
}

/// Whether a file that stays already lies in the folder, so that the rename merges into it.
pub fn folder_merge_same(static_files: &[String], new_prefix: &str) -> (r: bool)
    ensures
        r == merges_into(texts(static_files@), new_prefix@),
{
    let folder = concat2(new_prefix, "/");
    let mut i: usize = 0;
    while i < static_files.len()
        invariant
            i <= static_files@.len(),
            folder@ == new_prefix@ + "/"@,
            forall|j: int| 0 <= j < i ==> !has_prefix(#[trigger] texts(static_files@)[j], folder@),
        decreases static_files@.len() - i,
    {
        if starts_with(static_files[i].as_str(), folder.as_str()) {
            assert(has_prefix(texts(static_files@)[i as int], folder@));
            return true;
        }
        i = i + 1;
    }
    false
}

/// A path with slashes between its segments.
pub open spec fn slashed(path: Seq<char>) -> Seq<char> {
    path.map_values(|c: char| if c == '\\' { '/' } else { c })
}

/// A path with slashes between its segments.
fn with_slashes(path: &str) -> (r: String)
    ensures
        r@ == slashed(path@),
{
    let v = chars_of(path);
    let mut out = String::new();
    let mut i: usize = 0;
    while i < v.len()
        invariant
            i <= v@.len(),
            out@ == slashed(v@.take(i as int)),
        decreases v@.len() - i,
    {
        let c = v[i];
        out.push(if c == '\\' { '/' } else { c });
        assert(out@ =~= slashed(v@.take(i as int + 1)));
        i = i + 1;
    }
    assert(v@.take(v@.len() as int) =~= v@);
    out
}

/// The paths that are not the torrent's own, in order.
pub open spec fn unrelated(found: Seq<Seq<char>>, own: NameSet) -> Seq<Seq<char>>
    decreases found.len(),
{
    if found.len() == 0 {
        found
    } else {
        let before = unrelated(found.drop_last(), own);
        if own.has(slashed(found.last())) {
            before
        } else {
            before.push(found.last())
        }
    }
}

/// The paths found on disk, relative to the save folder, that are not the torrent's own.
pub fn unrelated_files(found: &Vec<String>, own: &NameSet) -> (r: Vec<String>)
    requires
        own.wf(),
    ensures
        texts(r@) == unrelated(texts(found@), *own),
{
    let ghost all = texts(found@);
    let mut out: Vec<String> = Vec::new();
    let mut i: usize = 0;
    assert(all.take(0) =~= Seq::<Seq<char>>::empty());
    assert(texts(out@) =~= Seq::<Seq<char>>::empty());
    while i < found.len()
        invariant
            i <= found@.len(),
            all == texts(found@),
            own.wf(),
            texts(out@) == unrelated(all.take(i as int), *own),
        decreases found@.len() - i,
    {
        proof {
            assert(all.take(i as int + 1).drop_last() =~= all.take(i as int));
            assert(all.take(i as int + 1).last() == found@[i as int]@);
        }
        let key = with_slashes(found[i].as_str());
        if !own.contains(key.as_str()) {
            let ghost before = out@;
            out.push(found[i].clone());
            assert(texts(out@) =~= texts(before).push(found@[i as int]@));
        }
        i = i + 1;
    }
    assert(all.take(all.len() as int) =~= all);
    out
}

} // verus!
