//! What is told in answer to questions, and what the requests for names come to.

use crate::categories::{TagRule, TagRules};
use crate::handle::{active, handled};
use crate::ipc::{ContentLayout, Request, Response, TorrentInfo};
use crate::names::NameSet;
use crate::rename::{
    clashes, collision, file_paths, folder_outcome, folder_plan, folder_refused,
    law_folder_renames_do_not_clash, merges_into, moved_path, name_refusal, slashed, staying,
    unrelated, FolderOutcome,
};
use crate::requests::{
    add_finished, are_renames, gains, grown, in_range, members, retagged, AddedFacts,
};
use crate::server::{
    is_file_list, is_info, is_peer_list, is_tracker_list, AddOrder, Answer, App, Effect, Facts,
    Handling, ManagedTorrent, SaveFile, TorrentFacts,
};
use crate::sources::Source;
use crate::text::{has_prefix, lowercase, occurs, split, texts, trim, trim_back_char};
use vstd::prelude::*;

verus! {

// ----- torrents -----

/// What is told of a torrent is what the session reports of it, under the name that the user
/// gave it, with the category and the tags that the daemon noted.
pub open spec fn tells(
    info: TorrentInfo,
    position: int,
    torrent: ManagedTorrent,
    facts: TorrentFacts,
) -> bool {
    let s = facts.status;
    &&& info.index == position
    &&& info.info_hash == s.info_hash
    &&& torrent.display_name is Some ==> Some(info.name) == torrent.display_name
    &&& torrent.display_name is None ==> info.name == s.name
    &&& info.state == s.state && info.error == s.error && info.save_path == s.save_path
    &&& info.progress == s.progress
    &&& info.download_rate == s.download_rate && info.upload_rate == s.upload_rate
    &&& info.connected_peers == s.connected_peers && info.total_peers == s.total_peers
    &&& info.connected_seeds == s.connected_seeds && info.total_seeds == s.total_seeds
    &&& info.total_wanted == s.total_wanted && info.total_done == s.total_done
    &&& info.total_download == s.total_download && info.total_upload == s.total_upload
    &&& info.num_pieces == s.num_pieces && info.num_completed_pieces == s.num_completed_pieces
    &&& info.added_time == s.added_time && info.completed_time == s.completed_time
    &&& info.is_paused == s.is_paused && info.is_finished == s.is_finished
    &&& info.is_seeding == s.is_seeding && info.has_metadata == s.has_metadata
    &&& info.category == torrent.category
    &&& info.download_limit == facts.download_limit && info.upload_limit == facts.upload_limit
    &&& forall|tag: Seq<char>| #[trigger] info.tags.has(tag) <==> torrent.tags.has(tag)
}

/// A list tells of every torrent, in order, what the session reports.
pub proof fn law_lists_tell_what_is_reported(
    before: App,
    after: App,
    facts: Facts,
    out: Handling,
)
    requires
        handled(before, after, Request::List, facts, out),
        before.torrents@.len() <= usize::MAX,
    ensures
        out matches Handling::Reply(a) && (a.response matches Response::TorrentList(list) && {
            &&& list@.len() == before.torrents@.len()
            &&& forall|i: int|
                0 <= i < list@.len() ==> tells(
                    #[trigger] list@[i],
                    i,
                    before.torrents@[i],
                    facts.torrents@[i],
                )
        }),
{
    let list = out->Reply_0.response->TorrentList_0;
    assert forall|i: int| 0 <= i < list@.len() implies tells(
        #[trigger] list@[i],
        i,
        before.torrents@[i],
        facts.torrents@[i],
    ) by {
        assert(is_info(list@[i], i as usize, before.torrents@[i], facts.torrents@[i]));
    }
}

/// The details of a torrent tell of it, its peers, its files and its trackers what the session
/// reports; a file of which it does not say the progress has none, and one of which it does not
/// say the priority has the normal one.
pub proof fn law_details_tell_what_is_reported(
    before: App,
    after: App,
    index: usize,
    facts: Facts,
    out: Handling,
)
    requires
        handled(before, after, Request::Info { index }, facts, out),
        index < before.torrents@.len(),
        facts.target.files@.len() <= usize::MAX,
    ensures
        out matches Handling::Reply(a) && (a.response matches Response::TorrentDetail(detail) && {
            let t = facts.target;
            &&& tells(
                detail.info,
                index as int,
                before.torrents@[index as int],
                facts.torrents@[index as int],
            )
            &&& detail.peers@ == t.peers@
            &&& detail.files@.len() == t.files@.len()
            &&& forall|i: int|
                0 <= i < t.files@.len() ==> {
                    let f = #[trigger] detail.files@[i];
                    &&& f.index == i && f.path == t.files@[i].path && f.size == t.files@[i].size
                    &&& i < t.file_progress@.len() ==> f.progress == t.file_progress@[i]
                    &&& i >= t.file_progress@.len() ==> f.progress.bits == 0
                    &&& i < t.file_priorities@.len() && 0 <= t.file_priorities@[i] <= 255
                        ==> f.priority == t.file_priorities@[i]
                    &&& i >= t.file_priorities@.len() ==> f.priority == 4
                }
            &&& detail.trackers@.len() == t.trackers@.len()
            &&& forall|i: int|
                0 <= i < t.trackers@.len() ==> {
                    let k = #[trigger] detail.trackers@[i];
                    &&& k.url == t.trackers@[i].url && k.tier == t.trackers@[i].tier
                    &&& k.verified == t.trackers@[i].verified
                    &&& k.updating == t.trackers@[i].updating
                    &&& k.fails == t.trackers@[i].fails && k.message == t.trackers@[i].message
                }
        }),
{
    let detail = out->Reply_0.response->TorrentDetail_0;
    assert(is_peer_list(detail.peers@, facts.target.peers@));
    assert(detail.peers@ =~= facts.target.peers@);
    assert(is_file_list(detail.files@, facts.target));
    assert(is_tracker_list(detail.trackers@, facts.target.trackers@));
}

/// The torrents that run are counted one by one.
proof fn lemma_active(facts: Seq<TorrentFacts>, n: int)
    requires
        0 <= n <= facts.len(),
    ensures
        active(facts, n) == facts.take(n).filter(|f: TorrentFacts| !f.status.is_paused).len(),
        active(facts, n) <= n,
    decreases n,
{
    reveal(Seq::filter);
    if n > 0 {
        lemma_active(facts, n - 1);
        assert(facts.take(n).drop_last() =~= facts.take(n - 1));
    }
}

/// The counters tell how many torrents there are, how many of them run and how many are paused,
/// and the rates, totals and peers that the session reports.
pub proof fn law_counters_count(before: App, after: App, facts: Facts, out: Handling)
    requires
        handled(before, after, Request::Stats, facts, out),
        before.torrents@.len() <= i32::MAX,
        facts.torrents@.len() == before.torrents@.len(),
    ensures
        out matches Handling::Reply(a) && (a.response matches Response::Stats(s) && {
            &&& s.num_torrents == before.torrents@.len()
            &&& s.active_torrents == facts.torrents@.filter(
                |f: TorrentFacts| !f.status.is_paused,
            ).len()
            &&& s.active_torrents + s.paused_torrents == s.num_torrents
            &&& s.download_rate == facts.stats.download_rate
            &&& s.upload_rate == facts.stats.upload_rate
            &&& s.total_download == facts.stats.total_download
            &&& s.total_upload == facts.stats.total_upload
            &&& s.total_dht_nodes == facts.stats.total_dht_nodes
            &&& s.num_peers == facts.stats.num_peers
        }),
{
    let all = facts.torrents@;
    lemma_active(all, all.len() as int);
    assert(all.take(all.len() as int) =~= all);
}

/// The configuration is told as it is stored, and so is the magnet link of a torrent.
pub proof fn law_texts_are_told(
    before: App,
    after: App,
    request: Request,
    facts: Facts,
    out: Handling,
)
    requires
        handled(before, after, request, facts, out),
    ensures
        request is GetConfig ==> (out matches Handling::Reply(a) && a.response == Response::Config(
            facts.config_text,
        )),
        request matches Request::Magnet { index } ==> index < before.torrents@.len() ==> (
        out matches Handling::Reply(a) && a.response == Response::Magnet(facts.target.magnet_uri)),
        request is Shutdown || request is SaveConfig ==> (out matches Handling::Reply(a)
            && a.response == Response::Done && a.effects@.len() == 0),
        request is SaveConfig ==> (out matches Handling::Reply(a) && a.save == Some(
            SaveFile::Config,
        )),
        request is Shutdown ==> (out matches Handling::Reply(a) && a.save is None),
{
}

// ----- categories, rules and feeds -----

/// The torrent is in the category of that name.
pub open spec fn is_in(torrent: ManagedTorrent, name: Seq<char>) -> bool {
    torrent.category matches Some(own) && own@ == name
}

/// The torrents of a category are counted one by one.
proof fn lemma_members(torrents: Seq<ManagedTorrent>, name: Seq<char>, n: int)
    requires
        0 <= n <= torrents.len(),
    ensures
        members(torrents, name, n) == torrents.take(n).filter(
            |t: ManagedTorrent| is_in(t, name),
        ).len(),
    decreases n,
{
    reveal(Seq::filter);
    if n > 0 {
        lemma_members(torrents, name, n - 1);
        assert(torrents.take(n).drop_last() =~= torrents.take(n - 1));
    }
}

/// The list of categories tells each with its folder, its tags and the number of its torrents.
pub proof fn law_categories_are_listed(before: App, after: App, facts: Facts, out: Handling)
    requires
        handled(before, after, Request::ListCategories, facts, out),
        before.wf(),
    ensures
        out matches Handling::Reply(a) && (a.response matches Response::Categories(list) && {
            &&& forall|i: int|
                0 <= i < list@.len() ==> {
                    let c = #[trigger] list@[i];
                    &&& before.categories.entries.has(c.name@)
                    &&& c.save_path == before.categories.entries.at(c.name@).save_path
                    &&& texts(c.add_tags@) == texts(
                        before.categories.entries.at(c.name@).add_tags@,
                    )
                    &&& c.torrent_count == before.torrents@.filter(
                        |t: ManagedTorrent| is_in(t, c.name@),
                    ).len()
                }
            &&& forall|name: Seq<char>| #[trigger]
                before.categories.entries.has(name) ==> exists|i: int|
                    0 <= i < list@.len() && (#[trigger] list@[i]).name@ == name
        }),
{
    let list = out->Reply_0.response->Categories_0;
    let entries = before.categories.entries;
    let names = entries.list();
    assert forall|i: int| 0 <= i < list@.len() implies {
        let c = #[trigger] list@[i];
        &&& entries.has(c.name@)
        &&& c.save_path == entries.at(c.name@).save_path
        &&& texts(c.add_tags@) == texts(entries.at(c.name@).add_tags@)
        &&& c.torrent_count == before.torrents@.filter(
            |t: ManagedTorrent| is_in(t, c.name@),
        ).len()
    } by {
        let c = list@[i];
        assert(names[i] == c.name@);
        assert(names.contains(c.name@));
        let k = names.index_of(c.name@);
        crate::names::lemma_ordered_distinct(names);
        assert(names[k] == names[i]);
        assert(k == i);
        lemma_members(before.torrents@, c.name@, before.torrents@.len() as int);
        assert(before.torrents@.take(before.torrents@.len() as int) =~= before.torrents@);
    }
    assert forall|name: Seq<char>| #[trigger] entries.has(name) implies exists|i: int|
        0 <= i < list@.len() && (#[trigger] list@[i]).name@ == name by {
        let k = names.index_of(name);
        assert(names[k] == name);
        assert(list@[k].name == entries.keys@[k]);
    }
}

/// A category that is defined has just that folder and those tags, and is stored; the others
/// stay. One without a name is refused.
pub proof fn law_categories_are_defined(
    before: App,
    after: App,
    name: String,
    save_path: String,
    add_tags: Vec<String>,
    facts: Facts,
    out: Handling,
)
    requires
        handled(
            before,
            after,
            Request::SetCategoryDefinition { name, save_path, add_tags },
            facts,
            out,
        ),
    ensures
        out matches Handling::Reply(a) && a.effects@.len() == 0,
        trim(name@).len() == 0 ==> after == before && out->Reply_0.save is None
            && out->Reply_0.response is Failed,
        trim(name@).len() > 0 ==> {
            &&& out->Reply_0.save == Some(SaveFile::Categories)
            &&& out->Reply_0.response == Response::Done
            &&& after.categories.entries.has(name@)
            &&& after.categories.entries.at(name@).save_path == save_path
            &&& after.categories.entries.at(name@).add_tags == add_tags
            &&& after.torrents == before.torrents && after.config == before.config
        },
        forall|other: Seq<char>|
            other != name@ ==> (#[trigger] after.categories.entries.has(other)
                == before.categories.entries.has(other)),
        forall|other: Seq<char>|
            other != name@ && #[trigger] before.categories.entries.has(other)
                ==> after.categories.entries.at(other) == before.categories.entries.at(other),
{
}

/// A category that is removed is gone, and its torrents are in none; nothing else of them
/// changes, nor does any other torrent or category. One that is not there is refused.
pub proof fn law_categories_are_removed(
    before: App,
    after: App,
    name: String,
    facts: Facts,
    out: Handling,
    i: int,
)
    requires
        handled(before, after, Request::RemoveCategory { name }, facts, out),
        0 <= i < before.torrents@.len(),
    ensures
        !before.categories.entries.has(name@) ==> after == before && (
        out matches Handling::Reply(a) && a.effects@.len() == 0 && a.save is None
            && a.response is Failed),
        before.categories.entries.has(name@) ==> {
            let old_one = before.torrents@[i];
            let new_one = after.torrents@[i];
            &&& !after.categories.entries.has(name@)
            &&& after.torrents@.len() == before.torrents@.len()
            &&& (old_one.category matches Some(c) && c@ == name@) ==> new_one.category is None
            &&& !(old_one.category matches Some(c) && c@ == name@) ==> new_one.category
                == old_one.category
            &&& new_one == (ManagedTorrent { category: new_one.category, ..old_one })
            &&& out matches Handling::Reply(a) && a.save == Some(SaveFile::Categories)
                && a.response == Response::Done && a.effects@ == seq![Effect::PersistTorrents]
        },
        forall|other: Seq<char>|
            other != name@ ==> (#[trigger] after.categories.entries.has(other)
                == before.categories.entries.has(other)),
{
}

/// A rule holds of a torrent of that name and size with those trackers.
pub open spec fn rule_holds(
    rule: TagRule,
    name: Seq<char>,
    size: int,
    trackers: Seq<Seq<char>>,
) -> bool {
    &&& rule.size_min is None || rule.size_min->0 <= size
    &&& rule.size_max is None || size <= rule.size_max->0
    &&& rule.name_contains is None || occurs(lowercase(name), lowercase(rule.name_contains->0@))
    &&& rule.tracker_contains is None || exists|t: Seq<char>|
        #[trigger] trackers.contains(t) && occurs(
            lowercase(t),
            lowercase(rule.tracker_contains->0@),
        )
}

/// A rule matches where it holds.
proof fn lemma_rule_holds(rule: TagRule, name: Seq<char>, size: i64, trackers: Seq<Seq<char>>)
    ensures
        rule.matches(name, size, trackers) == rule_holds(rule, name, size as int, trackers),
{
    if let Some(needle) = rule.tracker_contains {
        if rule.matches(name, size, trackers) {
            let i = choose|i: int|
                0 <= i < trackers.len() && crate::categories::occurs_any_case(
                    #[trigger] trackers[i],
                    needle@,
                );
            assert(trackers.contains(trackers[i]));
        }
        if rule_holds(rule, name, size as int, trackers) {
            let t = choose|t: Seq<char>|
                #[trigger] trackers.contains(t) && occurs(lowercase(t), lowercase(needle@));
            assert(crate::categories::occurs_any_case(trackers[trackers.index_of(t)], needle@));
        }
    }
}

/// The rules give exactly the tags of those that hold.
pub proof fn law_rules_give_their_tags(
    rules: TagRules,
    tag: Seq<char>,
    name: Seq<char>,
    size: i64,
    trackers: Seq<Seq<char>>,
)
    ensures
        rules.gives(rules.rules@.len() as int, tag, name, size, trackers) <==> exists|i: int|
            0 <= i < rules.rules@.len() && rule_holds(
                #[trigger] rules.rules@[i],
                name,
                size as int,
                trackers,
            ) && texts(rules.rules@[i].add_tags@).contains(tag),
{
    assert forall|i: int| 0 <= i < rules.rules@.len() implies (#[trigger] rules.rules@[i]).matches(
        name,
        size,
        trackers,
    ) == rule_holds(rules.rules@[i], name, size as int, trackers) by {
        lemma_rule_holds(rules.rules@[i], name, size, trackers);
    }
    if rules.gives(rules.rules@.len() as int, tag, name, size, trackers) {
        let i = choose|i: int|
            0 <= i < rules.rules@.len() && (#[trigger] rules.rules@[i]).matches(
                name,
                size,
                trackers,
            ) && texts(rules.rules@[i].add_tags@).contains(tag);
        assert(rule_holds(rules.rules@[i], name, size as int, trackers));
    }
}

/// Tagging anew gives each torrent, beside the tags that it has, those of the rules as they are
/// now that hold of its name, its size and its trackers, and changes nothing else of it.
pub proof fn law_retagging_goes_by_the_rules(
    before: App,
    after: App,
    facts: Facts,
    out: Handling,
    i: int,
    tag: Seq<char>,
)
    requires
        handled(before, after, Request::RetagAll, facts, out),
        0 <= i < before.torrents@.len(),
    ensures
        after.torrents@.len() == before.torrents@.len(),
        facts.rules is Some ==> Some(after.tag_rules) == facts.rules,
        facts.rules is None ==> after.tag_rules == before.tag_rules,
        after.config == before.config,
        after.torrents@[i] == (ManagedTorrent {
            tags: after.torrents@[i].tags,
            ..before.torrents@[i]
        }),
        after.torrents@[i].tags.has(tag) <==> (before.torrents@[i].tags.has(tag) || exists|k: int|
            0 <= k < after.tag_rules.rules@.len() && rule_holds(
                #[trigger] after.tag_rules.rules@[k],
                facts.torrents@[i].status.name@,
                facts.torrents@[i].status.total_wanted as int,
                texts(facts.torrents@[i].trackers@),
            ) && texts(after.tag_rules.rules@[k].add_tags@).contains(tag)),
{
    let own = facts.torrents@[i];
    assert(retagged(before.torrents@[i], after.torrents@[i], after.tag_rules, own));
    assert(after.torrents@[i].tags.has(tag) <==> (before.torrents@[i].tags.has(tag) || gains(
        after.tag_rules,
        own,
        tag,
    )));
    law_rules_give_their_tags(
        after.tag_rules,
        tag,
        own.status.name@,
        own.status.total_wanted,
        texts(own.trackers@),
    );
}

/// Where no torrent got a tag none is counted.
proof fn lemma_grown_where(before: Seq<ManagedTorrent>, after: Seq<ManagedTorrent>, n: int)
    requires
        0 <= n,
    ensures
        grown(before, after, n) <= n,
        grown(before, after, n) > 0 <==> exists|i: int|
            0 <= i < n && (#[trigger] after[i]).tags.list().len() > before[i].tags.list().len(),
    decreases n,
{
    if n > 0 {
        lemma_grown_where(before, after, n - 1);
        if grown(before, after, n - 1) > 0 {
            let i = choose|i: int|
                0 <= i < n - 1 && (#[trigger] after[i]).tags.list().len()
                    > before[i].tags.list().len();
            assert(after[i].tags.list().len() > before[i].tags.list().len());
        }
        assert(after[n - 1].tags.list().len() == after[n - 1].tags.list().len());
    }
}

/// The list is stored after tagging exactly where some torrent got a tag.
pub proof fn law_retagging_stores_what_it_changed(
    before: App,
    after: App,
    facts: Facts,
    out: Handling,
)
    requires
        handled(before, after, Request::RetagAll, facts, out),
    ensures
        out matches Handling::Reply(a) && a.save is None && (a.effects@.len() == 0 || a.effects@
            == seq![Effect::PersistTorrents]),
        out->Reply_0.effects@.len() > 0 <==> exists|i: int|
            0 <= i < before.torrents@.len() && (#[trigger] after.torrents@[i]).tags.list().len()
                > before.torrents@[i].tags.list().len(),
{
    lemma_grown_where(before.torrents@, after.torrents@, before.torrents@.len() as int);
}

/// The list of feeds tells each with all that is noted of it.
pub proof fn law_feeds_are_listed(before: App, after: App, facts: Facts, out: Handling, i: int)
    requires
        handled(before, after, Request::ListFeeds, facts, out),
        0 <= i < before.rss_feeds.feeds@.len() <= usize::MAX,
    ensures
        out matches Handling::Reply(a) && (a.response matches Response::Feeds(list) && {
            let own = before.rss_feeds.feeds@[i];
            &&& list@.len() == before.rss_feeds.feeds@.len()
            &&& list@[i].index == i && list@[i].url == own.url && list@[i].filter == own.filter
            &&& list@[i].category == own.category && list@[i].save_path == own.save_path
            &&& list@[i].poll_interval_minutes == own.poll_interval_minutes
            &&& list@[i].start_paused == own.start_paused
        }),
{
}

// ----- names -----

/// A path can be given to a file or a folder where it is not empty, does not start at the root,
/// does not lead upwards and has no null character.
pub proof fn law_names_stay_below_the_folder(name: Seq<char>)
    ensures
        name_refusal(name) is None <==> {
            &&& name.len() > 0
            &&& name[0] != '/'
            &&& !split(name, '/').contains(".."@)
            &&& !name.contains('\0')
        },
{
    reveal_strlit("/");
    if name.len() > 0 {
        assert(has_prefix(name, "/"@) <==> name[0] == '/') by {
            if name[0] == '/' {
                assert(name.subrange(0, 1) =~= "/"@);
            } else {
                assert(name.subrange(0, 1)[0] != "/"@[0]);
            }
        }
    }
}

/// Something stands in the way of a new path exactly where another file has it, or has it as a
/// folder.
pub proof fn law_collisions_are_found(files: Seq<Seq<char>>, mine: int, name: Seq<char>, n: int)
    requires
        0 <= n <= files.len(),
    ensures
        collision(files, mine, name, n) is Some <==> exists|k: int|
            0 <= k < n && k != mine && (#[trigger] files[k] == name || has_prefix(
                files[k],
                name + "/"@,
            )),
    decreases n,
{
    if n > 0 {
        law_collisions_are_found(files, mine, name, n - 1);
        if collision(files, mine, name, n - 1) is Some {
            let k = choose|k: int|
                0 <= k < n - 1 && k != mine && (#[trigger] files[k] == name || has_prefix(
                    files[k],
                    name + "/"@,
                ));
            assert(files[k] == name || has_prefix(files[k], name + "/"@));
        }
        assert(files[n - 1] == files[n - 1]);
    }
}

/// A file can be renamed exactly where its torrent and the file are there, the path stays below
/// the folder and nothing stands in the way.
pub proof fn law_free_names_are_given(
    before: App,
    after: App,
    index: usize,
    file_index: usize,
    new_name: String,
    facts: Facts,
    out: Handling,
)
    requires
        handled(before, after, Request::RenameFile { index, file_index, new_name }, facts, out),
    ensures
        ({
            let files = file_paths(facts.target.files@);
            (out matches Handling::Reply(a) && a.response == Response::Done) <==> {
                &&& index < before.torrents@.len()
                &&& file_index < files.len()
                &&& name_refusal(new_name@) is None
                &&& forall|k: int|
                    0 <= k < files.len() && k != file_index ==> #[trigger] files[k] != new_name@
                        && !has_prefix(files[k], new_name@ + "/"@)
            }
        }),
{
    let files = file_paths(facts.target.files@);
    law_collisions_are_found(files, file_index as int, new_name@, files.len() as int);
    if forall|k: int|
        0 <= k < files.len() && k != file_index ==> #[trigger] files[k] != new_name@ && !has_prefix(
            files[k],
            new_name@ + "/"@,
        ) {
    }
}

/// The files that a folder rename plans to move.
proof fn lemma_plan(files: Seq<Seq<char>>, from: Seq<char>, to: Seq<char>, n: int)
    requires
        0 <= n <= files.len(),
    ensures
        ({
            let plan = folder_plan(files, from, to, n);
            &&& forall|j: int|
                0 <= j < plan.len() ==> 0 <= (#[trigger] plan[j]).0 < n && moved_path(
                    files[plan[j].0],
                    from,
                    to,
                ) == Some(plan[j].1)
            &&& folder_refused(files, from, to, n).len() == 0 ==> forall|k: int|
                0 <= k < n && moved_path(#[trigger] files[k], from, to) is Some ==> plan.contains(
                    (k, moved_path(files[k], from, to)->0),
                )
        }),
    decreases n,
{
    if n > 0 {
        lemma_plan(files, from, to, n - 1);
        let before = folder_plan(files, from, to, n - 1);
        let plan = folder_plan(files, from, to, n);
        assert forall|j: int| 0 <= j < plan.len() implies 0 <= (#[trigger] plan[j]).0 < n
            && moved_path(files[plan[j].0], from, to) == Some(plan[j].1) by {
            if j < before.len() {
                assert(plan[j] == before[j]);
            }
        }
        if folder_refused(files, from, to, n).len() == 0 {
            assert(folder_refused(files, from, to, n - 1).len() == 0);
            assert forall|k: int|
                0 <= k < n && moved_path(#[trigger] files[k], from, to) is Some implies plan.contains(
                (k, moved_path(files[k], from, to)->0),
            ) by {
                let pair = (k, moved_path(files[k], from, to)->0);
                if k < n - 1 {
                    let j = before.index_of(pair);
                    assert(plan[j] == pair);
                } else {
                    assert(plan.last() == pair);
                    assert(plan[plan.len() - 1] == pair);
                }
            }
        }
    }
}

/// A path below a folder keeps what follows the folder.
pub proof fn law_files_move_with_their_folder(from: Seq<char>, to: Seq<char>, rest: Seq<char>)
    requires
        rest.len() > 0,
    ensures
        moved_path(from + "/"@ + rest, from, to) == Some(to + "/"@ + rest),
        moved_path(from, from, to) == Some(to),
{
    reveal_strlit("/");
    let path = from + "/"@ + rest;
    let folder = from + "/"@;
    assert(path.len() == folder.len() + rest.len());
    assert(path.subrange(0, folder.len() as int) =~= folder);
    assert(path.skip(from.len() as int + 1) =~= rest);
    assert(path.len() != from.len() && path.len() != folder.len());
}

/// A path that is neither the folder nor below it does not move with it.
pub proof fn law_other_files_stay(path: Seq<char>, from: Seq<char>, to: Seq<char>)
    requires
        path != from,
        !has_prefix(path, from + "/"@),
    ensures
        moved_path(path, from, to) is None,
{
    let folder = from + "/"@;
    if path == folder {
        assert(path.subrange(0, folder.len() as int) =~= folder);
    }
}

/// A folder is renamed as a whole: where any file is renamed, every file below the folder is,
/// each to the same path below the new one, and no other file is.
pub proof fn law_folders_are_renamed_as_a_whole(
    before: App,
    after: App,
    index: usize,
    old_prefix: String,
    new_prefix: String,
    facts: Facts,
    out: Handling,
)
    requires
        handled(
            before,
            after,
            Request::RenameFolder { index, old_prefix, new_prefix },
            facts,
            out,
        ),
        out matches Handling::Reply(a) && a.effects@.len() > 0,
    ensures
        after == before,
        index < before.torrents@.len(),
        ({
            let files = file_paths(facts.target.files@);
            let from = trim_back_char(old_prefix@, '/');
            let to = trim_back_char(new_prefix@, '/');
            let effects = out->Reply_0.effects@;
            &&& forall|j: int|
                0 <= j < effects.len() ==> {
                    &&& (#[trigger] effects[j]) matches Effect::RenameFile { index: t, file, path }
                    &&& t == index
                    &&& file < files.len()
                    &&& moved_path(files[file as int], from, to) == Some(path@)
                }
            &&& forall|k: int|
                0 <= k < files.len() && moved_path(#[trigger] files[k], from, to) is Some
                    ==> exists|j: int|
                    0 <= j < effects.len() && ((#[trigger] effects[j]) matches Effect::RenameFile {
                        file,
                        ..
                    } && file == k)
        }),
{
    let files = file_paths(facts.target.files@);
    let from = trim_back_char(old_prefix@, '/');
    let to = trim_back_char(new_prefix@, '/');
    let effects = out->Reply_0.effects@;
    lemma_plan(files, from, to, files.len() as int);
    let plan = folder_plan(files, from, to, files.len() as int);
    assert(folder_outcome(files, old_prefix@, new_prefix@) == FolderOutcome::Renames(plan));
    assert(are_renames(effects, index, plan));
    assert forall|j: int| 0 <= j < effects.len() implies {
        &&& (#[trigger] effects[j]) matches Effect::RenameFile { index: t, file, path }
        &&& t == index
        &&& file < files.len()
        &&& moved_path(files[file as int], from, to) == Some(path@)
    } by {
        assert(plan[j].0 < files.len());
    }
    assert forall|k: int|
        0 <= k < files.len() && moved_path(#[trigger] files[k], from, to) is Some implies exists|
        j: int,
    |
        0 <= j < effects.len() && ((#[trigger] effects[j]) matches Effect::RenameFile { file, .. }
            && file == k) by {
        let j = plan.index_of((k, moved_path(files[k], from, to)->0));
        assert(plan[j].0 == k);
        assert(effects[j] is RenameFile);
    }
}

/// The files that stand in the way of a folder's rename are named by their positions: all lie
/// below the folder, and every one whose new path is not allowed is among them with the reason.
pub proof fn law_files_in_the_way_are_named(
    files: Seq<Seq<char>>,
    old_prefix: Seq<char>,
    new_prefix: Seq<char>,
    j: int,
    k: int,
)
    requires
        folder_outcome(files, old_prefix, new_prefix) is Rejected,
        0 <= j < folder_outcome(files, old_prefix, new_prefix)->Rejected_0.len(),
        0 <= k < files.len(),
    ensures
        ({
            let from = trim_back_char(old_prefix, '/');
            let to = trim_back_char(new_prefix, '/');
            let list = folder_outcome(files, old_prefix, new_prefix)->Rejected_0;
            &&& 0 <= list[j].0 < files.len()
            &&& moved_path(files[list[j].0], from, to) is Some
            &&& moved_path(files[k], from, to) matches Some(target) ==> name_refusal(
                target,
            ) matches Some(reason) ==> list.contains((k, reason))
        }),
{
    let from = trim_back_char(old_prefix, '/');
    let to = trim_back_char(new_prefix, '/');
    let n = files.len() as int;
    let plan = folder_plan(files, from, to, n);
    let refused = folder_refused(files, from, to, n);
    let stay = staying(files, from, to, n);
    let clashing = clashes(plan, stay, plan.len() as int);
    let list = folder_outcome(files, old_prefix, new_prefix)->Rejected_0;
    assert(list == refused + clashing);
    lemma_refused(files, from, to, n);
    lemma_clashing(plan, stay, plan.len() as int);
    lemma_plan(files, from, to, n);
    if j < refused.len() {
        assert(list[j] == refused[j]);
    } else {
        let e = clashing[j - refused.len()];
        assert(list[j] == e);
        let i = choose|i: int| 0 <= i < plan.len() && (#[trigger] plan[i]).0 == e.0;
        assert(plan[i].0 == e.0);
    }
    if let Some(target) = moved_path(files[k], from, to) {
        if let Some(reason) = name_refusal(target) {
            assert(refused.contains((k, reason)));
            assert(list[refused.index_of((k, reason))] == (k, reason));
        }
    }
}

/// The files whose new path is not allowed.
proof fn lemma_refused(files: Seq<Seq<char>>, from: Seq<char>, to: Seq<char>, n: int)
    requires
        0 <= n <= files.len(),
    ensures
        ({
            let refused = folder_refused(files, from, to, n);
            &&& forall|j: int|
                0 <= j < refused.len() ==> 0 <= (#[trigger] refused[j]).0 < n && moved_path(
                    files[refused[j].0],
                    from,
                    to,
                ) is Some
            &&& forall|k: int|
                0 <= k < n && moved_path(#[trigger] files[k], from, to) is Some && name_refusal(
                    moved_path(files[k], from, to)->0,
                ) is Some ==> refused.contains(
                    (k, name_refusal(moved_path(files[k], from, to)->0)->0),
                )
        }),
    decreases n,
{
    if n > 0 {
        let before = folder_refused(files, from, to, n - 1);
        let refused = folder_refused(files, from, to, n);
        lemma_refused(files, from, to, n - 1);
        assert forall|k: int|
            0 <= k < n && moved_path(#[trigger] files[k], from, to) is Some && name_refusal(
                moved_path(files[k], from, to)->0,
            ) is Some implies refused.contains(
            (k, name_refusal(moved_path(files[k], from, to)->0)->0),
        ) by {
            let e = (k, name_refusal(moved_path(files[k], from, to)->0)->0);
            if k == n - 1 {
                assert(refused[before.len() as int] == e);
            } else {
                assert(before.contains(e));
                assert(refused[before.index_of(e)] == e);
            }
        }
    }
}

/// The files that clash are among those that move.
proof fn lemma_clashing(plan: Seq<(int, Seq<char>)>, stay: Seq<Seq<char>>, n: int)
    requires
        0 <= n <= plan.len(),
    ensures
        forall|j: int|
            0 <= j < clashes(plan, stay, n).len() ==> exists|i: int|
                0 <= i < plan.len() && (#[trigger] plan[i]).0 == (#[trigger] clashes(
                    plan,
                    stay,
                    n,
                )[j]).0,
    decreases n,
{
    if n > 0 {
        lemma_clashing(plan, stay, n - 1);
        let before = clashes(plan, stay, n - 1);
        let all = clashes(plan, stay, n);
        assert forall|j: int| 0 <= j < all.len() implies exists|i: int|
            0 <= i < plan.len() && (#[trigger] plan[i]).0 == (#[trigger] all[j]).0 by {
            if j < before.len() {
                assert(all[j] == before[j]);
            } else {
                assert(plan[n - 1].0 == all[j].0);
            }
        }
    }
}

/// Two files that would get one path stand in the way, and so does one that would get the path
/// of a file that stays.
pub proof fn law_taken_paths_are_in_the_way(
    files: Seq<Seq<char>>,
    old_prefix: Seq<char>,
    new_prefix: Seq<char>,
    a: int,
    b: int,
)
    requires
        0 <= a < files.len() && 0 <= b < files.len() && a != b,
        ({
            let from = trim_back_char(old_prefix, '/');
            let to = trim_back_char(new_prefix, '/');
            &&& moved_path(files[a], from, to) is Some
            &&& moved_path(files[b], from, to) == moved_path(files[a], from, to) || (moved_path(
                files[b],
                from,
                to,
            ) is None && moved_path(files[a], from, to) == Some(files[b]))
        }),
    ensures
        !(folder_outcome(files, old_prefix, new_prefix) is Renames),
{
    if folder_outcome(files, old_prefix, new_prefix) is Renames {
        let from = trim_back_char(old_prefix, '/');
        let to = trim_back_char(new_prefix, '/');
        let n = files.len() as int;
        let plan = folder_plan(files, from, to, n);
        let refused = folder_refused(files, from, to, n);
        let stay = staying(files, from, to, n);
        lemma_refused(files, from, to, n);
        lemma_plan(files, from, to, n);
        law_folder_renames_do_not_clash(files, old_prefix, new_prefix);
        let target = moved_path(files[a], from, to)->0;
        assert((refused + clashes(plan, stay, plan.len() as int)).len() == 0);
        assert(refused.len() == 0);
        assert(name_refusal(target) is None);
        let i = plan.index_of((a, target));
        if moved_path(files[b], from, to) is Some {
            let k = plan.index_of((b, target));
            assert(plan[i].1 == plan[k].1);
        } else {
            lemma_stays(files, from, to, n, b);
        }
    }
}

/// A file that does not move stays.
proof fn lemma_stays(files: Seq<Seq<char>>, from: Seq<char>, to: Seq<char>, n: int, b: int)
    requires
        0 <= b < n <= files.len(),
        moved_path(files[b], from, to) is None,
    ensures
        staying(files, from, to, n).contains(files[b]),
    decreases n,
{
    let before = staying(files, from, to, n - 1);
    let all = staying(files, from, to, n);
    if b == n - 1 {
        assert(all[before.len() as int] == files[b]);
    } else {
        lemma_stays(files, from, to, n - 1, b);
        assert(all[before.index_of(files[b])] == files[b]);
    }
}

/// A rename merges into a folder where some file that stays lies in it.
pub proof fn law_merging_needs_a_file_in_the_folder(
    stay: Seq<Seq<char>>,
    folder: Seq<char>,
    name: Seq<char>,
)
    ensures
        stay.contains(folder + "/"@ + name) ==> merges_into(stay, folder),
        merges_into(stay, folder) ==> exists|i: int, rest: Seq<char>|
            0 <= i < stay.len() && #[trigger] stay[i] == #[trigger] (folder + "/"@ + rest),
{
    let start = folder + "/"@;
    if stay.contains(start + name) {
        let i = stay.index_of(start + name);
        assert((start + name).subrange(0, start.len() as int) =~= start);
        assert(has_prefix(stay[i], start));
    }
    if merges_into(stay, folder) {
        let i = choose|i: int| 0 <= i < stay.len() && has_prefix(#[trigger] stay[i], start);
        let rest = stay[i].skip(start.len() as int);
        assert(stay[i].subrange(0, start.len() as int) == start);
        assert(stay[i] =~= start + rest);
    }
}

/// Of the files found in a folder those are unrelated that are not among the torrent's own,
/// whichever way their paths are written.
pub proof fn law_unrelated_files_are_not_its_own(
    found: Seq<Seq<char>>,
    own: NameSet,
    path: Seq<char>,
)
    ensures
        unrelated(found, own).contains(path) <==> found.contains(path) && !own.has(slashed(path)),
    decreases found.len(),
{
    if found.len() > 0 {
        let rest = found.drop_last();
        let before = unrelated(rest, own);
        law_unrelated_files_are_not_its_own(rest, own, path);
        if found.contains(path) {
            let i = found.index_of(path);
            if i < rest.len() {
                assert(rest[i] == path);
            }
        }
        if rest.contains(path) {
            assert(found[rest.index_of(path)] == path);
        }
        if before.contains(path) {
            let i = before.index_of(path);
            assert(unrelated(found, own)[i] == path);
        }
        if !own.has(slashed(found.last())) {
            assert(unrelated(found, own)[before.len() as int] == found.last());
            if unrelated(found, own).contains(path) {
                let i = unrelated(found, own).index_of(path);
                if i < before.len() {
                    assert(before[i] == path);
                }
            }
        }
        assert(found[found.len() - 1] == found.last());
    }
}

/// A path is compared with forward slashes in place of backward ones, character by character.
pub proof fn law_slashes_go_one_way(path: Seq<char>)
    ensures
        slashed(path).len() == path.len(),
        !slashed(path).contains('\\'),
        forall|i: int|
            0 <= i < path.len() ==> #[trigger] slashed(path)[i] == path[i] || (path[i] == '\\'
                && slashed(path)[i] == '/'),
{
}

/// A torrent that was added gets the tags of its order and those of every rule that holds of it,
/// and no others. Its files are laid out as was asked: as configured where nothing was asked, and
/// as they are where a folder is wanted only for several files.
pub proof fn law_added_torrent_is_tagged_and_laid_out(
    before: App,
    after: App,
    order: AddOrder,
    source: Source,
    added: AddedFacts,
    out: Answer,
    tag: Seq<char>,
)
    requires
        add_finished(before, after, order, source, Ok(added), out),
    ensures
        ({
            let t = after.torrents@.last();
            let setting = before.config.default_content_layout@;
            let layout = order.content_layout;
            let rules = before.tag_rules.rules@;
            &&& t.tags.has(tag) <==> order.tags.has(tag) || exists|i: int|
                0 <= i < rules.len() && rule_holds(
                    #[trigger] rules[i],
                    added.name@,
                    added.total_wanted as int,
                    texts(added.trackers@),
                ) && texts(rules[i].add_tags@).contains(tag)
            &&& layout == ContentLayout::IfMultiple ==> t.pending_layout is None
            &&& layout == ContentLayout::Always || layout == ContentLayout::Never
                ==> t.pending_layout == Some(layout)
            &&& layout == ContentLayout::Default && setting == "always"@ ==> t.pending_layout
                == Some(ContentLayout::Always)
            &&& layout == ContentLayout::Default && setting == "never"@ ==> t.pending_layout
                == Some(ContentLayout::Never)
            &&& layout == ContentLayout::Default && setting != "always"@ && setting != "never"@
                ==> t.pending_layout is None
        }),
{
    let rules = before.tag_rules.rules@;
    reveal_strlit("always");
    reveal_strlit("never");
    assert("always"@.len() == 6 && "never"@.len() == 5);
    assert forall|i: int| 0 <= i < rules.len() implies (#[trigger] rules[i]).matches(
        added.name@,
        added.total_wanted,
        texts(added.trackers@),
    ) == rule_holds(
        rules[i],
        added.name@,
        added.total_wanted as int,
        texts(added.trackers@),
    ) by {
        lemma_rule_holds(rules[i], added.name@, added.total_wanted, texts(added.trackers@));
    }
}

/// Of several priorities those before the first that is out of range are set, and that one is
/// told.
pub proof fn law_bad_priority_stops(
    before: App,
    after: App,
    index: usize,
    priorities: Vec<(usize, u8)>,
    facts: Facts,
    out: Handling,
    k: int,
)
    requires
        handled(
            before,
            after,
            Request::SetFilePrioritiesBatch { index, priorities },
            facts,
            out,
        ),
        index < before.torrents@.len(),
        0 <= k < priorities@.len(),
        priorities@[k].1 > 7,
        forall|j: int| 0 <= j < k ==> (#[trigger] priorities@[j]).1 <= 7,
    ensures
        out matches Handling::Reply(a) && a.effects@.len() == k && a.response is Failed && (
        forall|j: int|
            0 <= j < k ==> #[trigger] a.effects@[j] == (Effect::SetPriority {
                index,
                file: priorities@[j].0,
                priority: priorities@[j].1,
            })),
{
    lemma_in_range_stops(priorities@, k);
}

/// How many come before the first that is out of range.
proof fn lemma_in_range_stops(priorities: Seq<(usize, u8)>, k: int)
    requires
        0 <= k < priorities.len(),
        priorities[k].1 > 7,
        forall|j: int| 0 <= j < k ==> (#[trigger] priorities[j]).1 <= 7,
    ensures
        in_range(priorities) == k,
    decreases k,
{
    if k > 0 {
        let rest = priorities.skip(1);
        assert(priorities[0].1 <= 7);
        assert forall|j: int| 0 <= j < k - 1 implies (#[trigger] rest[j]).1 <= 7 by {
            assert(rest[j] == priorities[j + 1]);
        }
        lemma_in_range_stops(rest, k - 1);
    }
}

} // verus!
