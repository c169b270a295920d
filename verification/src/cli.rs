//! The commands of the command line and the requests that they stand for.

use crate::display::{pad, padded, repeat_char, repeated};
use crate::ipc::{ContentLayout, Request};
use crate::names::NameSet;
use crate::rss::pair_views;
use crate::text::{
    concat2, concat3, is_before, is_empty, lemma_precedes_irreflexive, lemma_precedes_total,
    lemma_precedes_transitive, opt_text, precedes, same, texts, trim, trimmed,
};
use vstd::prelude::*;

verus! {

/// What can be done with categories.
#[derive(Debug, Clone, PartialEq, Eq)]
pub enum CategoryAction {
    List,
    Define { name: String, save_path: String, tag: Vec<String> },
    Remove { name: String },
    Assign { index: usize, name: Option<String> },
}

/// What can be done with feeds.
#[derive(Debug, Clone, PartialEq, Eq)]
pub enum FeedAction {
    List,
    Add {
        url: String,
        filter: String,
        category: Option<String>,
        save_path: Option<String>,
        interval: u64,
        paused: bool,
    },
    Remove { index: usize },
    Poll,
}

/// A command that is sent to the daemon.
#[derive(Debug, Clone, PartialEq, Eq)]
pub enum Command {
    List,
    Info { index: usize },
    Add { uri: String, save_path: Option<String>, category: Option<String> },
    Remove { index: usize, delete_files: bool },
    Pause { index: usize },
    Resume { index: usize },
    Recheck { index: usize },
    Stats,
    Config,
    SetConfig { key: String, value: String },
    Rename { index: usize, file_index: usize, new_name: String },
    RenameFolder { index: usize, old_prefix: String, new_prefix: String },
    Move { index: usize, new_save_path: String },
    Reannounce { index: usize },
    Priority { index: usize, file_index: usize, priority: u8 },
    Magnet { index: usize },
    Sequential { index: usize, enabled: String },
    Tags { index: usize, tags: Vec<String> },
    Retag,
    Category { action: CategoryAction },
    Bind { index: usize, interface: Option<String> },
    Feed { action: FeedAction },
    Limit { index: usize, download: Option<i32>, upload: Option<i32> },
    Stop,
}

/// A word that turns something on.
pub open spec fn turns_on(word: Seq<char>) -> bool {
    word == "on"@ || word == "true"@ || word == "1"@ || word == "yes"@
}

/// A limit, or the mark for "as the whole session" where none is given.
pub open spec fn limit_or_global(limit: Option<i32>) -> i32 {
    match limit {
        Some(n) => n,
        None => -1i32,
    }
}

/// The request that a command stands for. Tags become a set.
pub open spec fn stands_for(command: Command, request: Request) -> bool {
    match command {
        Command::List => request == Request::List,
        Command::Info { index } => request == (Request::Info { index }),
        Command::Add { uri, save_path, category } => request == (Request::Add {
            uri,
            save_path,
            category,
            start_paused: false,
            content_layout: ContentLayout::Default,
        }),
        Command::Remove { index, delete_files } => request == (Request::Remove {
            index,
            delete_files,
        }),
        Command::Pause { index } => request == (Request::Pause { index }),
        Command::Resume { index } => request == (Request::Resume { index }),
        Command::Recheck { index } => request == (Request::Recheck { index }),
        Command::Stats => request == Request::Stats,
        Command::Config => request == Request::GetConfig,
        Command::SetConfig { key, value } => request == (Request::SetConfig { key, value }),
        Command::Rename { index, file_index, new_name } => request == (Request::RenameFile {
            index,
            file_index,
            new_name,
        }),
        Command::RenameFolder { index, old_prefix, new_prefix } => request
            == (Request::RenameFolder { index, old_prefix, new_prefix }),
        Command::Move { index, new_save_path } => request == (Request::Move {
            index,
            new_save_path,
        }),
        Command::Reannounce { index } => request == (Request::Reannounce { index }),
        Command::Priority { index, file_index, priority } => request
            == (Request::SetFilePriority { index, file_index, priority }),
        Command::Magnet { index } => request == (Request::Magnet { index }),
        Command::Sequential { index, enabled } => request == (Request::SetSequential {
            index,
            enabled: turns_on(enabled@),
        }),
        Command::Tags { index, tags } => {
            &&& request matches Request::SetTags { index: i, tags: set }
            &&& i == index && set.wf()
            &&& forall|t: Seq<char>| #[trigger] set.has(t) <==> texts(tags@).contains(t)
        },
        Command::Retag => request == Request::RetagAll,
        Command::Bind { index, interface } => request == (Request::SetTorrentInterface {
            index,
            interface,
        }),
        Command::Category { action } => match action {
            CategoryAction::List => request == Request::ListCategories,
            CategoryAction::Define { name, save_path, tag } => request
                == (Request::SetCategoryDefinition { name, save_path, add_tags: tag }),
            CategoryAction::Remove { name } => request == (Request::RemoveCategory { name }),
            CategoryAction::Assign { index, name } => request == (Request::SetCategory {
                index,
                name,
            }),
        },
        Command::Feed { action } => match action {
            FeedAction::List => request == Request::ListFeeds,
            FeedAction::Add { url, filter, category, save_path, interval, paused } => request
                == (Request::AddFeed {
                url,
                filter,
                category,
                save_path,
                poll_interval_minutes: interval,
                start_paused: paused,
            }),
            FeedAction::Remove { index } => request == (Request::RemoveFeed { index }),
            FeedAction::Poll => request == Request::PollFeeds,
        },
        Command::Limit { index, download, upload } => request == (Request::SetTorrentRateLimit {
            index,
            download: limit_or_global(download),
            upload: limit_or_global(upload),
        }),
        Command::Stop => request == Request::Shutdown,
    }
}

/// The request that a command stands for.
pub fn command_to_request(command: Command) -> (r: Request)
    ensures
        stands_for(command, r),
{
    match command {
        Command::List => Request::List,
        Command::Info { index } => Request::Info { index },
        Command::Add { uri, save_path, category } => Request::Add {
            uri,
            save_path,
            category,
            start_paused: false,
            content_layout: ContentLayout::Default,
        },
        Command::Remove { index, delete_files } => Request::Remove { index, delete_files },
        Command::Pause { index } => Request::Pause { index },
        Command::Resume { index } => Request::Resume { index },
        Command::Recheck { index } => Request::Recheck { index },
        Command::Stats => Request::Stats,
        Command::Config => Request::GetConfig,
        Command::SetConfig { key, value } => Request::SetConfig { key, value },
        Command::Rename { index, file_index, new_name } => Request::RenameFile {
            index,
            file_index,
            new_name,
        },
        Command::RenameFolder { index, old_prefix, new_prefix } => Request::RenameFolder {
            index,
            old_prefix,
            new_prefix,
        },
        Command::Move { index, new_save_path } => Request::Move { index, new_save_path },
        Command::Reannounce { index } => Request::Reannounce { index },
        Command::Priority { index, file_index, priority } => Request::SetFilePriority {
            index,
            file_index,
            priority,
        },
        Command::Magnet { index } => Request::Magnet { index },
        Command::Sequential { index, enabled } => {
            let word = enabled.as_str();
            Request::SetSequential {
                index,
                enabled: same(word, "on") || same(word, "true") || same(word, "1") || same(
                    word,
                    "yes",
                ),
            }
        },
        Command::Tags { index, tags } => {
            let mut set = NameSet::new();
            set.extend_list(&tags);
            Request::SetTags { index, tags: set }
        },
        Command::Retag => Request::RetagAll,
        Command::Bind { index, interface } => Request::SetTorrentInterface { index, interface },
        Command::Category { action } => match action {
            CategoryAction::List => Request::ListCategories,
            CategoryAction::Define { name, save_path, tag } => Request::SetCategoryDefinition {
                name,
                save_path,
                add_tags: tag,
            },
            CategoryAction::Remove { name } => Request::RemoveCategory { name },
            CategoryAction::Assign { index, name } => Request::SetCategory { index, name },
        },
        Command::Feed { action } => match action {
            FeedAction::List => Request::ListFeeds,
            FeedAction::Add { url, filter, category, save_path, interval, paused } => {
                Request::AddFeed {
                    url,
                    filter,
                    category,
                    save_path,
                    poll_interval_minutes: interval,
                    start_paused: paused,
                }
            },
            FeedAction::Remove { index } => Request::RemoveFeed { index },
            FeedAction::Poll => Request::PollFeeds,
        },
        Command::Limit { index, download, upload } => Request::SetTorrentRateLimit {
            index,
            download: download.unwrap_or(-1),
            upload: upload.unwrap_or(-1),
        },
        Command::Stop => Request::Shutdown,
    }
}

// ----- the token -----

/// The token to send: the given one, else the one of the environment unless it is empty, else
/// the one of the token file.
pub open spec fn token_of(
    given: Option<Seq<char>>,
    environment: Option<Seq<char>>,
    file: Option<Seq<char>>,
) -> Option<Seq<char>> {
    match given {
        Some(token) => Some(token),
        None => match environment {
            Some(token) if token.len() > 0 => Some(token),
            _ => match file {
                Some(text) => Some(trim(text)),
                None => None,
            },
        },
    }
}

/// The token to send, or what to do to have one. `path` is where the token file would lie.
pub fn resolve_token(
    given: Option<String>,
    environment: Option<String>,
    file: Option<String>,
    path: &str,
) -> (r: Result<String, String>)
    ensures
        match r {
            Ok(token) => token_of(opt_text(given), opt_text(environment), opt_text(file)) == Some(
                token@,
            ),
            Err(why) => token_of(opt_text(given), opt_text(environment), opt_text(file)) is None
                && why@ == "no token: pass --token, set MONSOON_TOKEN, or write "@ + path@,
        },
{
    if let Some(token) = given {
        return Ok(token);
    }
    if let Some(token) = environment {
        if !is_empty(token.as_str()) {
            return Ok(token);
        }
    }
    match file {
        Some(text) => Ok(trimmed(text.as_str())),
        None => Err(
            concat2("no token: pass --token, set MONSOON_TOKEN, or write ", path),
        ),
    }
}

// ----- interfaces -----

/// The pair comes before the other: by the first texts, then by the second.
pub open spec fn pair_before(a: (Seq<char>, Seq<char>), b: (Seq<char>, Seq<char>)) -> bool {
    precedes(a.0, b.0) || (a.0 == b.0 && precedes(a.1, b.1))
}

/// The list with a pair put behind all that do not come after it.
pub open spec fn pair_inserted(
    list: Seq<(Seq<char>, Seq<char>)>,
    p: (Seq<char>, Seq<char>),
) -> Seq<(Seq<char>, Seq<char>)>
    decreases list.len(),
{
    if list.len() == 0 || !pair_before(p, list.last()) {
        list.push(p)
    } else {
        pair_inserted(list.drop_last(), p).push(list.last())
    }
}

/// The pairs in order.
pub open spec fn pairs_sorted(list: Seq<(Seq<char>, Seq<char>)>) -> Seq<(Seq<char>, Seq<char>)>
    decreases list.len(),
{
    if list.len() == 0 {
        list
    } else {
        pair_inserted(pairs_sorted(list.drop_last()), list.last())
    }
}

/// Where a pair is put.
proof fn lemma_pair_inserted(
    list: Seq<(Seq<char>, Seq<char>)>,
    p: (Seq<char>, Seq<char>),
    k: int,
)
    requires
        0 <= k <= list.len(),
        forall|j: int| k <= j < list.len() ==> pair_before(p, #[trigger] list[j]),
        k > 0 ==> !pair_before(p, list[k - 1]),
    ensures
        pair_inserted(list, p) == list.insert(k, p),
    decreases list.len(),
{
    if k == list.len() {
        if list.len() > 0 {
            assert(list.last() == list[k - 1]);
        }
        assert(list.insert(k, p) =~= list.push(p));
    } else {
        assert(pair_before(p, list[list.len() - 1]));
        let init = list.drop_last();
        assert forall|j: int| k <= j < init.len() implies pair_before(p, #[trigger] init[j]) by {
            assert(init[j] == list[j]);
        }
        lemma_pair_inserted(init, p, k);
        assert(init.insert(k, p).push(list.last()) =~= list.insert(k, p));
    }
}

/// Whether the pair comes before the other.
fn comes_before(a: &(String, String), b: &(String, String)) -> (r: bool)
    ensures
        r == pair_before((a.0@, a.1@), (b.0@, b.1@)),
{
    is_before(a.0.as_str(), b.0.as_str()) || (same(a.0.as_str(), b.0.as_str()) && is_before(
        a.1.as_str(),
        b.1.as_str(),
    ))
}

/// The pairs in order.
pub fn sort_pairs(entries: Vec<(String, String)>) -> (r: Vec<(String, String)>)
    ensures
        pair_views(r@) == pairs_sorted(pair_views(entries@)),
{
    let ghost all = pair_views(entries@);
    let mut out: Vec<(String, String)> = Vec::new();
    let mut i: usize = 0;
    assert(all.take(0) =~= Seq::<(Seq<char>, Seq<char>)>::empty());
    assert(pair_views(out@) =~= Seq::<(Seq<char>, Seq<char>)>::empty());
    while i < entries.len()
        invariant
            i <= entries@.len(),
            all == pair_views(entries@),
            pair_views(out@) == pairs_sorted(all.take(i as int)),
            out@.len() == i,
        decreases entries@.len() - i,
    {
        let entry = (entries[i].0.clone(), entries[i].1.clone());
        let ghost p = (entry.0@, entry.1@);
        let mut k: usize = out.len();
        while k > 0 && comes_before(&entry, &out[k - 1])
            invariant
                k <= out@.len(),
                p == (entry.0@, entry.1@),
                forall|j: int|
                    k <= j < out@.len() ==> pair_before(p, #[trigger] pair_views(out@)[j]),
            decreases k,
        {
            assert(pair_views(out@)[k - 1] == (out@[k - 1].0@, out@[k - 1].1@));
            k = k - 1;
        }
        proof {
            if k > 0 {
                assert(pair_views(out@)[k - 1] == (out@[k - 1].0@, out@[k - 1].1@));
            }
            lemma_pair_inserted(pair_views(out@), p, k as int);
            assert(all.take(i as int + 1).drop_last() =~= all.take(i as int));
            assert(all.take(i as int + 1).last() == p);
        }
        let ghost before = out@;
        out.insert(k, entry);
        assert(pair_views(out@) =~= pair_views(before).insert(k as int, p));
        i = i + 1;
    }
    assert(all.take(all.len() as int) =~= all);
    out
}

/// What is printed of the network interfaces.
pub open spec fn interface_table(entries: Seq<(Seq<char>, Seq<char>)>) -> Seq<Seq<char>> {
    if entries.len() == 0 {
        seq!["(no interfaces detected)"@]
    } else {
        seq![padded("interface"@, 16) + " address"@, repeated('\u{2500}', 40)] + Seq::new(
            pairs_sorted(entries).len(),
            |i: int| padded(pairs_sorted(entries)[i].0, 16) + " "@ + pairs_sorted(entries)[i].1,
        )
    }
}

/// What is printed of the network interfaces, in order of their names.
pub fn list_interfaces(entries: Vec<(String, String)>) -> (r: Vec<String>)
    ensures
        texts(r@) == interface_table(pair_views(entries@)),
{
    let ghost given = pair_views(entries@);
    let mut out: Vec<String> = Vec::new();
    if entries.len() == 0 {
        out.push("(no interfaces detected)".to_owned());
        assert(texts(out@) =~= seq!["(no interfaces detected)"@]);
        return out;
    }
    let sorted = sort_pairs(entries);
    let heading = pad("interface", 16);
    out.push(concat2(heading.as_str(), " address"));
    out.push(repeat_char('\u{2500}', 40));
    let ghost all = interface_table(given);
    let mut i: usize = 0;
    assert(texts(out@) =~= all.take(2));
    while i < sorted.len()
        invariant
            i <= sorted@.len(),
            given.len() > 0,
            all == interface_table(given),
            pair_views(sorted@) == pairs_sorted(given),
            texts(out@) == all.take(i + 2),
        decreases sorted@.len() - i,
    {
        let name = pad(sorted[i].0.as_str(), 16);
        let line = concat3(name.as_str(), " ", sorted[i].1.as_str());
        proof {
            assert(pairs_sorted(given)[i as int] == (sorted@[i as int].0@, sorted@[i as int].1@));
            assert(all[i + 2] == line@);
        }
        let ghost before = out@;
        out.push(line);
        assert(texts(out@) =~= texts(before).push(line@));
        assert(texts(out@) =~= all.take(i + 3));
        i = i + 1;
    }
    assert(texts(out@) =~= all);
    out
}

/// Sorting leaves the pairs in order and loses none.
pub proof fn law_interfaces_sorted(list: Seq<(Seq<char>, Seq<char>)>)
    ensures
        pairs_sorted(list).to_multiset() == list.to_multiset(),
        forall|i: int, j: int|
            0 <= i < j < list.len() ==> !pair_before(
                #[trigger] pairs_sorted(list)[j],
                #[trigger] pairs_sorted(list)[i],
            ),
        pairs_sorted(list).len() == list.len(),
    decreases list.len(),
{
    broadcast use vstd::seq_lib::group_to_multiset_ensures;

    if list.len() > 0 {
        let init = list.drop_last();
        law_interfaces_sorted(init);
        lemma_inserted_keeps_order(pairs_sorted(init), list.last());
        assert(list =~= init.push(list.last()));
    }
}

/// Inserting keeps an ordered list ordered and adds the one pair.
proof fn lemma_inserted_keeps_order(list: Seq<(Seq<char>, Seq<char>)>, p: (Seq<char>, Seq<char>))
    requires
        forall|i: int, j: int|
            0 <= i < j < list.len() ==> !pair_before(#[trigger] list[j], #[trigger] list[i]),
    ensures
        pair_inserted(list, p).len() == list.len() + 1,
        pair_inserted(list, p).to_multiset() == list.to_multiset().insert(p),
        forall|i: int, j: int|
            0 <= i < j < list.len() + 1 ==> !pair_before(
                #[trigger] pair_inserted(list, p)[j],
                #[trigger] pair_inserted(list, p)[i],
            ),
        forall|i: int|
            0 <= i < list.len() + 1 ==> (#[trigger] pair_inserted(list, p)[i] == p || list.contains(
                pair_inserted(list, p)[i],
            )),
    decreases list.len(),
{
    broadcast use vstd::seq_lib::group_to_multiset_ensures;

    let out = pair_inserted(list, p);
    if list.len() == 0 || !pair_before(p, list.last()) {
        assert forall|i: int, j: int| 0 <= i < j < out.len() implies !pair_before(
            #[trigger] out[j],
            #[trigger] out[i],
        ) by {
            if j == list.len() {
                lemma_pair_order(p, list.last(), list[i]);
                if i < list.len() - 1 {
                    assert(!pair_before(list[list.len() - 1], list[i]));
                }
            }
        }
        assert forall|i: int| 0 <= i < out.len() implies #[trigger] out[i] == p || list.contains(
            out[i],
        ) by {
            if i < list.len() {
                assert(list[i] == out[i]);
            }
        }
    } else {
        let init = list.drop_last();
        let last = list.last();
        lemma_inserted_keeps_order(init, p);
        let head = pair_inserted(init, p);
        assert(list =~= init.push(last));
        assert forall|i: int| 0 <= i < out.len() implies #[trigger] out[i] == p || list.contains(
            out[i],
        ) by {
            if i < head.len() {
                assert(out[i] == head[i]);
                if head[i] != p {
                    let k = init.index_of(head[i]);
                    assert(list[k] == head[i]);
                }
            } else {
                assert(list[list.len() - 1] == out[i]);
            }
        }
        assert forall|i: int, j: int| 0 <= i < j < out.len() implies !pair_before(
            #[trigger] out[j],
            #[trigger] out[i],
        ) by {
            if j == head.len() {
                assert(out[i] == head[i]);
                if head[i] == p {
                    lemma_pair_order(last, p, last);
                } else {
                    let k = init.index_of(head[i]);
                    assert(list[k] == head[i]);
                    assert(!pair_before(list[list.len() - 1], list[k]));
                }
            } else {
                assert(out[i] == head[i] && out[j] == head[j]);
            }
        }
    }
}

/// The order of pairs is strict, and what does not come before something that does not come
/// before a third does not come before the third.
proof fn lemma_pair_order(
    a: (Seq<char>, Seq<char>),
    b: (Seq<char>, Seq<char>),
    c: (Seq<char>, Seq<char>),
)
    ensures
        !(pair_before(a, b) && pair_before(b, a)),
        !pair_before(a, b) && !pair_before(b, c) ==> !pair_before(a, c),
{
    if precedes(a.0, b.0) && precedes(b.0, a.0) {
        lemma_precedes_transitive(a.0, b.0, a.0);
    }
    if precedes(a.1, b.1) && precedes(b.1, a.1) {
        lemma_precedes_transitive(a.1, b.1, a.1);
    }
    lemma_precedes_irreflexive(a.0);
    lemma_precedes_irreflexive(b.0);
    lemma_precedes_irreflexive(a.1);
    lemma_precedes_total(a.0, b.0);
    lemma_precedes_total(b.0, c.0);
    lemma_precedes_total(a.1, b.1);
    lemma_precedes_total(b.1, c.1);
    if !pair_before(a, b) && !pair_before(b, c) && pair_before(a, c) {
        // b.0 <= a.0 and c.0 <= b.0, while a.0 <= c.0
        if precedes(b.0, a.0) {
            if precedes(a.0, c.0) {
                lemma_precedes_transitive(b.0, a.0, c.0);
            }
        }
        if precedes(c.0, b.0) {
            if precedes(a.0, c.0) {
                lemma_precedes_transitive(a.0, c.0, b.0);
                if precedes(b.0, a.0) {
                    lemma_precedes_transitive(a.0, b.0, a.0);
                }
            }
            if precedes(b.0, a.0) {
                lemma_precedes_transitive(c.0, b.0, a.0);
                lemma_precedes_irreflexive(c.0);
            }
        }
        if precedes(a.0, c.0) && precedes(b.0, a.0) {
            lemma_precedes_transitive(b.0, a.0, c.0);
        }
        if a.0 == b.0 && b.0 == c.0 {
            if precedes(c.1, b.1) {
                lemma_precedes_transitive(a.1, c.1, b.1);
            }
            if precedes(b.1, a.1) && precedes(a.1, c.1) {
                lemma_precedes_transitive(b.1, a.1, c.1);
            }
        }
    }
}

} // verus!
