//! What the daemon's answers do to the torrents that run.
//!
//! The session is seen here as a row of torrents in the order of the daemon's list. Each effect
//! changes it in one way; the laws say what a whole answer comes to.

use crate::handle::handled;
use crate::ipc::{Request, Response};
use crate::requests::{
    add_finished, in_range, lemma_range_is_valid, move_finished, priority_effects, unskipped,
    AddedFacts,
};
use crate::server::{AddOrder, Answer, App, Effect, Facts, Handling, MoveOrder, SaveFile};
use crate::sources::Source;
use crate::text::{has_prefix, opt_text, texts, trim};
use vstd::prelude::*;

verus! {

/// A torrent of the session.
#[verifier::ext_equal]
pub struct Running {
    pub paused: bool,
    pub sequential: bool,
    pub first_last: bool,
    pub download_limit: int,
    pub upload_limit: int,
    /// the interface that it is bound to, empty where it is not
    pub interface: Seq<char>,
    /// where it was told to move, where it was
    pub folder: Option<Seq<char>>,
    /// the paths that were given to its files
    pub paths: Map<int, Seq<char>>,
    /// the priorities that were given to its files
    pub priorities: Map<int, int>,
    /// the trackers that were added and not removed since, with their tiers
    pub trackers: Map<Seq<char>, int>,
    /// how often it was checked, announced and had its resume data asked for
    pub checks: nat,
    pub announces: nat,
    pub saves: nat,
}

/// The session and what is stored.
#[verifier::ext_equal]
pub struct World {
    pub torrents: Seq<Running>,
    /// the hashes of the torrents that were taken out, with whether their files were deleted
    pub gone: Seq<(Seq<char>, bool)>,
    /// how often the list, the configuration and the settings of the session were written
    pub lists: nat,
    pub configs: nat,
    pub settings: nat,
    /// how often the feeds were polled
    pub polls: nat,
}

/// The world with one torrent changed.
pub open spec fn with_torrent(w: World, index: usize, t: Running) -> World {
    World { torrents: w.torrents.update(index as int, t), ..w }
}

/// What one effect does.
pub open spec fn effect_done(w: World, e: Effect) -> World {
    match e {
        Effect::Pause { index } => with_torrent(
            w,
            index,
            Running { paused: true, ..w.torrents[index as int] },
        ),
        Effect::Resume { index } => with_torrent(
            w,
            index,
            Running { paused: false, ..w.torrents[index as int] },
        ),
        Effect::SaveResume { index } => with_torrent(
            w,
            index,
            Running {
                saves: w.torrents[index as int].saves + 1,
                ..w.torrents[index as int]
            },
        ),
        Effect::Recheck { index } => with_torrent(
            w,
            index,
            Running {
                checks: w.torrents[index as int].checks + 1,
                ..w.torrents[index as int]
            },
        ),
        Effect::Reannounce { index } => with_torrent(
            w,
            index,
            Running {
                announces: w.torrents[index as int].announces + 1,
                ..w.torrents[index as int]
            },
        ),
        Effect::RenameFile { index, file, path } => with_torrent(
            w,
            index,
            Running {
                paths: w.torrents[index as int].paths.insert(file as int, path@),
                ..w.torrents[index as int]
            },
        ),
        Effect::SetPriority { index, file, priority } => with_torrent(
            w,
            index,
            Running {
                priorities: w.torrents[index as int].priorities.insert(
                    file as int,
                    priority as int,
                ),
                ..w.torrents[index as int]
            },
        ),
        Effect::MoveStorage { index, path } => with_torrent(
            w,
            index,
            Running { folder: Some(path@), ..w.torrents[index as int] },
        ),
        Effect::SetSequential { index, enabled } => with_torrent(
            w,
            index,
            Running { sequential: enabled, ..w.torrents[index as int] },
        ),
        Effect::SetFirstLast { index, enabled } => with_torrent(
            w,
            index,
            Running { first_last: enabled, ..w.torrents[index as int] },
        ),
        Effect::UseInterface { index, name } => with_torrent(
            w,
            index,
            Running { interface: name@, ..w.torrents[index as int] },
        ),
        Effect::SetDownloadLimit { index, limit } => with_torrent(
            w,
            index,
            Running { download_limit: limit as int, ..w.torrents[index as int] },
        ),
        Effect::SetUploadLimit { index, limit } => with_torrent(
            w,
            index,
            Running { upload_limit: limit as int, ..w.torrents[index as int] },
        ),
        Effect::AddTracker { index, url, tier } => with_torrent(
            w,
            index,
            Running {
                trackers: w.torrents[index as int].trackers.insert(url@, tier as int),
                ..w.torrents[index as int]
            },
        ),
        Effect::RemoveTracker { index, url } => with_torrent(
            w,
            index,
            Running {
                trackers: w.torrents[index as int].trackers.remove(url@),
                ..w.torrents[index as int]
            },
        ),
        Effect::RemoveTorrent { index, delete_files, info_hash } => World {
            torrents: w.torrents.remove(index as int),
            gone: w.gone.push((info_hash@, delete_files)),
            ..w
        },
        Effect::PersistTorrents => World { lists: w.lists + 1, ..w },
        Effect::ApplySettings => World { settings: w.settings + 1, ..w },
        Effect::SaveConfig => World { configs: w.configs + 1, ..w },
        Effect::PollFeeds => World { polls: w.polls + 1, ..w },
    }
}

/// What a row of effects does, one after the other.
pub open spec fn all_done(w: World, effects: Seq<Effect>) -> World
    decreases effects.len(),
{
    if effects.len() == 0 {
        w
    } else {
        effect_done(all_done(w, effects.drop_last()), effects.last())
    }
}

/// What a row of one effect does.
pub proof fn lemma_one_done(w: World, effects: Seq<Effect>)
    requires
        effects.len() == 1,
    ensures
        all_done(w, effects) == effect_done(w, effects[0]),
{
    reveal_with_fuel(all_done, 2);
}

/// What a row of two effects does.
pub proof fn lemma_two_done(w: World, effects: Seq<Effect>)
    requires
        effects.len() == 2,
    ensures
        all_done(w, effects) == effect_done(effect_done(w, effects[0]), effects[1]),
{
    reveal_with_fuel(all_done, 3);
    assert(effects.drop_last()[0] == effects[0]);
}

/// What a row of three effects does.
pub proof fn lemma_three_done(w: World, effects: Seq<Effect>)
    requires
        effects.len() == 3,
    ensures
        all_done(w, effects) == effect_done(
            effect_done(effect_done(w, effects[0]), effects[1]),
            effects[2],
        ),
{
    lemma_two_done(w, effects.drop_last());
}

/// What one row of effects does after another.
pub proof fn lemma_done_joined(w: World, a: Seq<Effect>, b: Seq<Effect>)
    ensures
        all_done(w, a + b) == all_done(all_done(w, a), b),
    decreases b.len(),
{
    if b.len() == 0 {
        assert(a + b =~= a);
    } else {
        lemma_done_joined(w, a, b.drop_last());
        assert((a + b).drop_last() =~= a + b.drop_last());
    }
}

/// The answer was given, and this is what it does to the world.
pub open spec fn answered(w: World, out: Handling, after: World, response: Response) -> bool {
    out matches Handling::Reply(a) && all_done(w, a.effects@) == after && a.response == response
        && a.save is None
}

// ----- commands to one torrent -----

/// A torrent that is paused on request does not run then, and no other torrent is touched.
pub proof fn law_pausing_pauses(
    before: App,
    after: App,
    index: usize,
    facts: Facts,
    out: Handling,
    w: World,
)
    requires
        handled(before, after, Request::Pause { index }, facts, out),
        index < before.torrents@.len() == w.torrents.len(),
    ensures
        ({
            let t = w.torrents[index as int];
            answered(
                w,
                out,
                World {
                    torrents: w.torrents.update(
                        index as int,
                        Running { paused: true, saves: t.saves + 1, ..t },
                    ),
                    ..w
                },
                Response::Done,
            )
        }),
        after == before,
{
    lemma_two_done(w, out->Reply_0.effects@);
    let t = w.torrents[index as int];
    assert(all_done(w, out->Reply_0.effects@).torrents =~= w.torrents.update(
        index as int,
        Running { paused: true, saves: t.saves + 1, ..t },
    ));
}

/// A torrent that is resumed on request runs then, no other torrent is touched, and it may be
/// acted on for seed limits again.
pub proof fn law_resuming_runs(
    before: App,
    after: App,
    index: usize,
    facts: Facts,
    out: Handling,
    w: World,
)
    requires
        handled(before, after, Request::Resume { index }, facts, out),
        index < before.torrents@.len() == w.torrents.len(),
    ensures
        ({
            let t = w.torrents[index as int];
            answered(
                w,
                out,
                World {
                    torrents: w.torrents.update(
                        index as int,
                        Running { paused: false, saves: t.saves + 1, ..t },
                    ),
                    ..w
                },
                Response::Done,
            )
        }),
        !after.seed_limit_acted.has(before.torrents@[index as int].info_hash@),
        after.torrents == before.torrents,
        forall|h: Seq<char>|
            h != before.torrents@[index as int].info_hash@ ==> #[trigger] after.seed_limit_acted.has(h)
                == before.seed_limit_acted.has(h),
{
    lemma_two_done(w, out->Reply_0.effects@);
    let t = w.torrents[index as int];
    assert(all_done(w, out->Reply_0.effects@).torrents =~= w.torrents.update(
        index as int,
        Running { paused: false, saves: t.saves + 1, ..t },
    ));
}

/// Pausing a torrent and resuming it leaves the session as it was, but for the resume data that
/// was asked for on the way.
pub proof fn law_resuming_undoes_pausing(
    before: App,
    between: App,
    after: App,
    index: usize,
    facts1: Facts,
    facts2: Facts,
    out1: Handling,
    out2: Handling,
    w: World,
)
    requires
        handled(before, between, Request::Pause { index }, facts1, out1),
        handled(between, after, Request::Resume { index }, facts2, out2),
        index < before.torrents@.len() == w.torrents.len(),
        !w.torrents[index as int].paused,
    ensures
        out1 is Reply && out2 is Reply,
        ({
            let end = all_done(all_done(w, out1->Reply_0.effects@), out2->Reply_0.effects@);
            end == (World {
                torrents: w.torrents.update(
                    index as int,
                    Running {
                        saves: w.torrents[index as int].saves + 2,
                        ..w.torrents[index as int]
                    },
                ),
                ..w
            })
        }),
{
    law_pausing_pauses(before, between, index, facts1, out1, w);
    law_resuming_runs(between, after, index, facts2, out2, all_done(w, out1->Reply_0.effects@));
    let end = all_done(all_done(w, out1->Reply_0.effects@), out2->Reply_0.effects@);
    assert(end.torrents =~= w.torrents.update(
        index as int,
        Running { saves: w.torrents[index as int].saves + 2, ..w.torrents[index as int] },
    ));
}

/// A torrent that is removed on request leaves the session and the list, with its files where
/// that was asked for; the others stay, in their order.
pub proof fn law_removing_takes_out_one(
    before: App,
    after: App,
    index: usize,
    delete_files: bool,
    facts: Facts,
    out: Handling,
    w: World,
)
    requires
        handled(before, after, Request::Remove { index, delete_files }, facts, out),
        index < before.torrents@.len() == w.torrents.len(),
    ensures
        answered(
            w,
            out,
            World {
                torrents: w.torrents.remove(index as int),
                gone: w.gone.push((before.torrents@[index as int].info_hash@, delete_files)),
                lists: w.lists + 1,
                ..w
            },
            Response::Done,
        ),
        after.torrents@ == before.torrents@.remove(index as int),
        after == (App { torrents: after.torrents, ..before }),
{
    lemma_two_done(w, out->Reply_0.effects@);
}

/// The other commands each do their one thing to the torrent that they name.
pub proof fn law_commands_do_what_they_name(
    before: App,
    after: App,
    request: Request,
    facts: Facts,
    out: Handling,
    w: World,
    index: usize,
)
    requires
        handled(before, after, request, facts, out),
        index < before.torrents@.len() == w.torrents.len(),
        match request {
            Request::Recheck { index: i } => i == index,
            Request::Reannounce { index: i } => i == index,
            Request::SetSequential { index: i, .. } => i == index,
            Request::SetFirstLastPriority { index: i, .. } => i == index,
            Request::SetTorrentRateLimit { index: i, .. } => i == index,
            Request::AddTracker { index: i, .. } => i == index,
            Request::RemoveTracker { index: i, .. } => i == index,
            _ => false,
        },
    ensures
        after == before,
        ({
            let t = w.torrents[index as int];
            let next = match request {
                Request::Recheck { .. } => Running { checks: t.checks + 1, ..t },
                Request::Reannounce { .. } => Running { announces: t.announces + 1, ..t },
                Request::SetSequential { enabled, .. } => Running { sequential: enabled, ..t },
                Request::SetFirstLastPriority { enabled, .. } => Running {
                    first_last: enabled,
                    ..t
                },
                Request::SetTorrentRateLimit { download, upload, .. } => Running {
                    download_limit: download as int,
                    upload_limit: upload as int,
                    ..t
                },
                Request::AddTracker { url, tier, .. } => Running {
                    trackers: t.trackers.insert(url@, tier as int),
                    ..t
                },
                Request::RemoveTracker { url, .. } => Running {
                    trackers: t.trackers.remove(url@),
                    ..t
                },
                _ => t,
            };
            answered(
                w,
                out,
                World { torrents: w.torrents.update(index as int, next), ..w },
                Response::Done,
            )
        }),
{
    let effects = out->Reply_0.effects@;
    if effects.len() == 2 {
        lemma_two_done(w, effects);
        if let Request::SetTorrentRateLimit { download, upload, .. } = request {
            assert(all_done(w, effects).torrents =~= w.torrents.update(
                index as int,
                Running {
                    download_limit: download as int,
                    upload_limit: upload as int,
                    ..w.torrents[index as int]
                },
            ));
        }
    } else {
        lemma_one_done(w, effects);
    }
}

/// A tracker that is added and removed again is not there, whatever there was.
pub proof fn law_removing_undoes_adding_a_tracker(
    before: App,
    between: App,
    after: App,
    index: usize,
    url: String,
    tier: i32,
    facts1: Facts,
    facts2: Facts,
    out1: Handling,
    out2: Handling,
    w: World,
)
    requires
        handled(before, between, Request::AddTracker { index, url, tier }, facts1, out1),
        handled(between, after, Request::RemoveTracker { index, url }, facts2, out2),
        index < before.torrents@.len() == w.torrents.len(),
    ensures
        out1 is Reply && out2 is Reply,
        all_done(w, out1->Reply_0.effects@).torrents[index as int].trackers.contains_pair(
            url@,
            tier as int,
        ),
        !all_done(all_done(w, out1->Reply_0.effects@), out2->Reply_0.effects@).torrents[index as int].trackers.contains_key(
            url@,
        ),
{
    law_commands_do_what_they_name(
        before,
        between,
        Request::AddTracker { index, url, tier },
        facts1,
        out1,
        w,
        index,
    );
    law_commands_do_what_they_name(
        between,
        after,
        Request::RemoveTracker { index, url },
        facts2,
        out2,
        all_done(w, out1->Reply_0.effects@),
        index,
    );
}

/// Requests that name a torrent which is not there do nothing and are told so.
pub proof fn law_missing_torrents_are_refused(
    before: App,
    after: App,
    request: Request,
    facts: Facts,
    out: Handling,
    index: usize,
)
    requires
        handled(before, after, request, facts, out),
        index >= before.torrents@.len(),
        match request {
            Request::Info { index: i } => i == index,
            Request::Remove { index: i, .. } => i == index,
            Request::Pause { index: i } => i == index,
            Request::Resume { index: i } => i == index,
            Request::Recheck { index: i } => i == index,
            Request::Reannounce { index: i } => i == index,
            Request::RenameFile { index: i, .. } => i == index,
            Request::RenameFolder { index: i, .. } => i == index,
            Request::Move { index: i, .. } => i == index,
            Request::SetFilePriority { index: i, .. } => i == index,
            Request::SetFilePrioritiesBatch { index: i, .. } => i == index,
            Request::Magnet { index: i } => i == index,
            Request::SetSequential { index: i, .. } => i == index,
            Request::SetFirstLastPriority { index: i, .. } => i == index,
            Request::SetTags { index: i, .. } => i == index,
            Request::SetCategory { index: i, .. } => i == index,
            Request::RenameTorrent { index: i, .. } => i == index,
            Request::SetTorrentInterface { index: i, .. } => i == index,
            Request::SetTorrentRateLimit { index: i, .. } => i == index,
            Request::AddTracker { index: i, .. } => i == index,
            Request::RemoveTracker { index: i, .. } => i == index,
            _ => false,
        },
    ensures
        after == before,
        out matches Handling::Reply(a) && a.effects@.len() == 0 && a.save is None
            && a.response is Failed,
{
}

// ----- what the daemon notes of a torrent -----

/// A torrent that is pinned to an interface uses it, and one that is unpinned uses none of its
/// own; that is noted and stored.
pub proof fn law_pinned_torrent_uses_its_interface(
    before: App,
    after: App,
    index: usize,
    interface: Option<String>,
    facts: Facts,
    out: Handling,
    w: World,
)
    requires
        handled(before, after, Request::SetTorrentInterface { index, interface }, facts, out),
        index < before.torrents@.len() == w.torrents.len(),
    ensures
        answered(
            w,
            out,
            World {
                torrents: w.torrents.update(
                    index as int,
                    Running {
                        interface: match interface {
                            Some(name) => name@,
                            None => Seq::empty(),
                        },
                        ..w.torrents[index as int]
                    },
                ),
                lists: w.lists + 1,
                ..w
            },
            Response::Done,
        ),
        after.torrents@[index as int].interface_override == interface,
        after.torrents@.len() == before.torrents@.len(),
        forall|i: int|
            0 <= i < before.torrents@.len() && i != index ==> #[trigger] after.torrents@[i]
                == before.torrents@[i],
{
    lemma_two_done(w, out->Reply_0.effects@);
}

/// Tags, a category and a name that are given to a torrent are noted of that torrent alone and
/// stored; the session is not touched.
pub proof fn law_notes_are_kept(
    before: App,
    after: App,
    request: Request,
    facts: Facts,
    out: Handling,
    w: World,
    index: usize,
)
    requires
        handled(before, after, request, facts, out),
        index < before.torrents@.len(),
        match request {
            Request::SetTags { index: i, .. } => i == index,
            Request::SetCategory { index: i, name } => i == index && (name matches Some(text)
                ==> before.categories.entries.has(text@)),
            Request::RenameTorrent { index: i, .. } => i == index,
            _ => false,
        },
    ensures
        answered(w, out, World { lists: w.lists + 1, ..w }, Response::Done),
        after.torrents@.len() == before.torrents@.len(),
        forall|i: int|
            0 <= i < before.torrents@.len() && i != index ==> #[trigger] after.torrents@[i]
                == before.torrents@[i],
        ({
            let was = before.torrents@[index as int];
            let is = after.torrents@[index as int];
            &&& is.info_hash == was.info_hash
            &&& is.save_path == was.save_path
            &&& is.magnet_uri == was.magnet_uri
            &&& is.torrent_path == was.torrent_path
            &&& is.was_finished == was.was_finished
            &&& is.pending_layout == was.pending_layout
            &&& is.interface_override == was.interface_override
            &&& match request {
                Request::SetTags { tags, .. } => is.tags == tags && is.category == was.category
                    && is.display_name == was.display_name,
                Request::SetCategory { name, .. } => is.category == name && is.tags == was.tags
                    && is.display_name == was.display_name,
                Request::RenameTorrent { new_name, .. } => is.tags == was.tags && is.category
                    == was.category && opt_text(is.display_name) == (if new_name@.len() > 0 {
                    Some(new_name@)
                } else {
                    None
                }),
                _ => true,
            }
        }),
{
    lemma_one_done(w, out->Reply_0.effects@);
}

/// A torrent cannot be put into a category that is not there.
pub proof fn law_unknown_category_is_refused(
    before: App,
    after: App,
    index: usize,
    name: String,
    facts: Facts,
    out: Handling,
)
    requires
        handled(before, after, Request::SetCategory { index, name: Some(name) }, facts, out),
        !before.categories.entries.has(name@),
    ensures
        after == before,
        out matches Handling::Reply(a) && a.effects@.len() == 0 && a.save is None
            && a.response is Failed,
{
}

// ----- files -----

/// A file gets the priority that was asked for, from skipped to highest, and no other does.
pub proof fn law_priority_is_set(
    before: App,
    after: App,
    index: usize,
    file_index: usize,
    priority: u8,
    facts: Facts,
    out: Handling,
    w: World,
)
    requires
        handled(
            before,
            after,
            Request::SetFilePriority { index, file_index, priority },
            facts,
            out,
        ),
        index < before.torrents@.len() == w.torrents.len(),
    ensures
        after == before,
        priority <= 7 && file_index < facts.target.files@.len() ==> answered(
            w,
            out,
            World {
                torrents: w.torrents.update(
                    index as int,
                    Running {
                        priorities: w.torrents[index as int].priorities.insert(
                            file_index as int,
                            priority as int,
                        ),
                        ..w.torrents[index as int]
                    },
                ),
                ..w
            },
            Response::Done,
        ),
        priority > 7 || file_index >= facts.target.files@.len() ==> (out matches Handling::Reply(a)
            && a.effects@.len() == 0 && a.response is Failed),
{
    if priority <= 7 && file_index < facts.target.files@.len() {
        lemma_one_done(w, out->Reply_0.effects@);
    }
}

/// What a row of priorities for the files of one torrent does.
proof fn lemma_priorities_done(w: World, index: usize, priorities: Seq<(usize, u8)>, file: usize)
    requires
        index < w.torrents.len(),
    ensures
        ({
            let end = all_done(w, priority_effects(index, priorities));
            &&& end.torrents.len() == w.torrents.len()
            &&& forall|i: int|
                0 <= i < w.torrents.len() && i != index ==> #[trigger] end.torrents[i]
                    == w.torrents[i]
            &&& end.torrents[index as int] == (Running {
                priorities: end.torrents[index as int].priorities,
                ..w.torrents[index as int]
            })
            &&& end == (World { torrents: end.torrents, ..w })
            &&& forall|k: int|
                0 <= k < priorities.len() && (#[trigger] priorities[k]).0 == file && (forall|j: int|
                    k < j < priorities.len() ==> (#[trigger] priorities[j]).0 != file)
                    ==> end.torrents[index as int].priorities.contains_pair(
                    file as int,
                    priorities[k].1 as int,
                )
            &&& (forall|j: int| 0 <= j < priorities.len() ==> (#[trigger] priorities[j]).0 != file)
                ==> (end.torrents[index as int].priorities.contains_key(file as int)
                == w.torrents[index as int].priorities.contains_key(file as int)
                && end.torrents[index as int].priorities[file as int]
                == w.torrents[index as int].priorities[file as int])
        }),
    decreases priorities.len(),
{
    let effects = priority_effects(index, priorities);
    if priorities.len() > 0 {
        let init = priorities.drop_last();
        lemma_priorities_done(w, index, init, file);
        assert(effects.drop_last() =~= priority_effects(index, init));
        let mid = all_done(w, priority_effects(index, init));
        let end = all_done(w, effects);
        assert(effects.last() == Effect::SetPriority {
            index,
            file: priorities.last().0,
            priority: priorities.last().1,
        });
        assert(end == effect_done(mid, effects.last()));
        assert forall|k: int|
            0 <= k < priorities.len() && (#[trigger] priorities[k]).0 == file && (forall|j: int|
                k < j < priorities.len() ==> (#[trigger] priorities[j]).0 != file) implies
            end.torrents[index as int].priorities.contains_pair(
            file as int,
            priorities[k].1 as int,
        ) by {
            if k < init.len() {
                assert(priorities[priorities.len() - 1].0 != file);
                assert(init[k] == priorities[k]);
                assert forall|j: int| k < j < init.len() implies (#[trigger] init[j]).0 != file by {
                    assert(init[j] == priorities[j]);
                }
                assert(mid.torrents[index as int].priorities.contains_pair(
                    file as int,
                    init[k].1 as int,
                ));
            }
        }
        if forall|j: int| 0 <= j < priorities.len() ==> (#[trigger] priorities[j]).0 != file {
            assert forall|j: int| 0 <= j < init.len() implies (#[trigger] init[j]).0 != file by {
                assert(init[j] == priorities[j]);
            }
            assert(priorities[priorities.len() - 1].0 != file);
        }
    } else {
        assert(effects.len() == 0);
    }
}

/// Where all priorities of a request are valid, each file that is named once gets the one that
/// was asked for, files that are not named keep theirs, and other torrents are not touched.
pub proof fn law_priorities_are_set(
    before: App,
    after: App,
    index: usize,
    priorities: Vec<(usize, u8)>,
    facts: Facts,
    out: Handling,
    w: World,
    k: int,
)
    requires
        handled(
            before,
            after,
            Request::SetFilePrioritiesBatch { index, priorities },
            facts,
            out,
        ),
        index < before.torrents@.len() == w.torrents.len(),
        forall|j: int| 0 <= j < priorities@.len() ==> (#[trigger] priorities@[j]).1 <= 7,
        0 <= k < priorities@.len(),
        forall|j: int|
            0 <= j < priorities@.len() && j != k ==> (#[trigger] priorities@[j]).0
                != priorities@[k].0,
    ensures
        after == before,
        out is Reply && (out->Reply_0).response == Response::Done,
        ({
            let end = all_done(w, (out->Reply_0).effects@);
            &&& end.torrents.len() == w.torrents.len()
            &&& end.torrents[index as int].priorities.contains_pair(
                priorities@[k].0 as int,
                priorities@[k].1 as int,
            )
            &&& end.torrents[index as int] == (Running {
                priorities: end.torrents[index as int].priorities,
                ..w.torrents[index as int]
            })
            &&& forall|i: int|
                0 <= i < w.torrents.len() && i != index ==> #[trigger] end.torrents[i]
                    == w.torrents[i]
        }),
{
    lemma_range_is_valid(priorities@);
    assert(in_range(priorities@) == priorities@.len());
    assert(priorities@.take(priorities@.len() as int) =~= priorities@);
    lemma_priorities_done(w, index, priorities@, priorities@[k].0);
}

/// A file that is renamed gets the path that was asked for, and nothing else changes.
pub proof fn law_renaming_a_file_gives_the_path(
    before: App,
    after: App,
    index: usize,
    file_index: usize,
    new_name: String,
    facts: Facts,
    out: Handling,
    w: World,
)
    requires
        handled(before, after, Request::RenameFile { index, file_index, new_name }, facts, out),
        index < before.torrents@.len() == w.torrents.len(),
        out matches Handling::Reply(a) && a.response == Response::Done,
    ensures
        after == before,
        file_index < facts.target.files@.len(),
        answered(
            w,
            out,
            World {
                torrents: w.torrents.update(
                    index as int,
                    Running {
                        paths: w.torrents[index as int].paths.insert(
                            file_index as int,
                            new_name@,
                        ),
                        ..w.torrents[index as int]
                    },
                ),
                ..w
            },
            Response::Done,
        ),
{
    lemma_one_done(w, out->Reply_0.effects@);
}

// ----- adding and moving -----

/// A torrent that was moved is told to move to the folder and is noted to lie there; the path is
/// the latest of the recent ones, where any are kept.
pub proof fn law_moving_moves(
    before: App,
    after: App,
    order: MoveOrder,
    out: Answer,
    w: World,
)
    requires
        move_finished(before, after, order, Ok(()), false, out),
        order.index < before.torrents@.len() == w.torrents.len(),
    ensures
        all_done(w, out.effects@) == (World {
            torrents: w.torrents.update(
                order.index as int,
                Running { folder: Some(order.path@), ..w.torrents[order.index as int] },
            ),
            lists: w.lists + 1,
            configs: w.configs + 1,
            ..w
        }),
        out.response == Response::Done,
        after.torrents@.len() == before.torrents@.len(),
        after.torrents@[order.index as int].save_path == order.path,
        after.torrents@[order.index as int].tags == before.torrents@[order.index as int].tags,
        after.torrents@[order.index as int].category
            == before.torrents@[order.index as int].category,
        forall|i: int|
            0 <= i < before.torrents@.len() && i != order.index ==> #[trigger] after.torrents@[i]
                == before.torrents@[i],
{
    lemma_three_done(w, out.effects@);
}

/// A torrent that lies in the folder already, or for which the folder cannot be made, stays
/// where it is.
pub proof fn law_nothing_is_moved_in_place(
    before: App,
    after: App,
    order: MoveOrder,
    made: Result<(), String>,
    same_place: bool,
    out: Answer,
)
    requires
        move_finished(before, after, order, made, same_place, out),
        same_place || made is Err,
    ensures
        after == before,
        out.effects@.len() == 0,
        made is Err ==> out.response is Failed,
        made is Ok ==> out.response == Response::Done,
{
}

/// A move is ordered to where the request says, and only to an absolute path.
pub proof fn law_moves_go_where_asked(
    before: App,
    after: App,
    index: usize,
    new_save_path: String,
    facts: Facts,
    out: Handling,
)
    requires
        handled(before, after, Request::Move { index, new_save_path }, facts, out),
    ensures
        after == before,
        out matches Handling::Move(order) ==> order.index == index && order.path@ == trim(
            new_save_path@,
        ) && has_prefix(order.path@, "/"@) && index < before.torrents@.len(),
        out !is Move ==> (out matches Handling::Reply(a) && a.effects@.len() == 0
            && a.response is Failed),
        out is Move <==> index < before.torrents@.len() && has_prefix(trim(new_save_path@), "/"@),
{
    reveal_strlit("/");
}

/// What giving the normal priority to skipped files does.
proof fn lemma_unskipped_done(w: World, index: usize, priorities: Seq<i32>, n: int)
    requires
        index < w.torrents.len(),
        0 <= n <= priorities.len() <= usize::MAX,
    ensures
        ({
            let end = all_done(w, unskipped(index, priorities, n));
            &&& end.torrents.len() == w.torrents.len()
            &&& end == (World { torrents: end.torrents, ..w })
            &&& end.torrents[index as int] == (Running {
                priorities: end.torrents[index as int].priorities,
                ..w.torrents[index as int]
            })
            &&& forall|i: int|
                0 <= i < w.torrents.len() && i != index ==> #[trigger] end.torrents[i]
                    == w.torrents[i]
            &&& forall|f: int|
                0 <= f < n && #[trigger] priorities[f] == 0
                    ==> end.torrents[index as int].priorities.contains_pair(f, 4)
            &&& forall|f: int|
                0 <= f < priorities.len() && (f >= n || priorities[f] != 0)
                    ==> #[trigger] end.torrents[index as int].priorities.contains_key(f)
                    == w.torrents[index as int].priorities.contains_key(f)
        }),
    decreases n,
{
    if n > 0 {
        lemma_unskipped_done(w, index, priorities, n - 1);
        let before = unskipped(index, priorities, n - 1);
        let all = unskipped(index, priorities, n);
        let mid = all_done(w, before);
        let end = all_done(w, all);
        if priorities[n - 1] == 0 {
            assert(all.drop_last() =~= before);
            assert(end == effect_done(mid, all.last()));
        }
        assert forall|f: int| 0 <= f < n && #[trigger] priorities[f] == 0 implies
            end.torrents[index as int].priorities.contains_pair(f, 4) by {
            if f < n - 1 {
                assert(mid.torrents[index as int].priorities.contains_pair(f, 4));
            }
        }
    }
}

/// A torrent that was added is the last of the list, in the folder of the order and with what
/// the order gives it; the others stay.
pub proof fn law_added_torrent_is_noted(
    before: App,
    after: App,
    order: AddOrder,
    source: Source,
    facts: AddedFacts,
    out: Answer,
)
    requires
        add_finished(before, after, order, source, Ok(facts), out),
    ensures
        out.response == (Response::Added { id: facts.info_hash }),
        after.torrents@.len() == before.torrents@.len() + 1,
        forall|i: int|
            0 <= i < before.torrents@.len() ==> #[trigger] after.torrents@[i]
                == before.torrents@[i],
        ({
            let t = after.torrents@.last();
            &&& t.save_path == order.target
            &&& t.info_hash == facts.info_hash
            &&& t.category == order.category
            &&& t.display_name is None
            &&& t.interface_override is None
            &&& !t.was_finished
            &&& source matches Source::Magnet(link) ==> t.magnet_uri == Some(link)
                && t.torrent_path is None
            &&& source matches Source::File(path) ==> t.torrent_path == Some(path)
                && t.magnet_uri is None
            &&& forall|tag: Seq<char>| #[trigger] order.tags.has(tag) ==> t.tags.has(tag)
        }),
{
    assert forall|i: int| 0 <= i < before.torrents@.len() implies #[trigger] after.torrents@[i]
        == before.torrents@[i] by {
        assert(after.torrents@.drop_last()[i] == after.torrents@[i]);
    }
}

/// A torrent that is added paused does not run, and none of the files of a torrent file is left
/// skipped; one that is added running is left as it is. The list is stored either way, and the
/// configuration where the user named a folder.
pub proof fn law_added_torrent_starts_as_asked(
    before: App,
    after: App,
    order: AddOrder,
    source: Source,
    facts: AddedFacts,
    out: Answer,
    w: World,
)
    requires
        add_finished(before, after, order, source, Ok(facts), out),
        w.torrents.len() == before.torrents@.len() + 1 <= usize::MAX,
        facts.file_priorities@.len() <= usize::MAX,
    ensures
        ({
            let end = all_done(w, out.effects@);
            let n = before.torrents@.len() as int;
            &&& end.lists == w.lists + 1
            &&& end.configs == w.configs + (if order.save_path is Some {
                1nat
            } else {
                0nat
            })
            &&& end.torrents.len() == w.torrents.len()
            &&& forall|i: int| 0 <= i < n ==> #[trigger] end.torrents[i] == w.torrents[i]
            &&& order.start_paused ==> end.torrents[n].paused
            &&& !order.start_paused ==> end.torrents[n] == w.torrents[n]
            &&& order.start_paused && source is File ==> forall|f: int|
                0 <= f < facts.file_priorities@.len() && #[trigger] facts.file_priorities@[f] == 0
                    ==> end.torrents[n].priorities.contains_pair(f, 4)
            &&& source is Magnet ==> end.torrents[n].priorities == w.torrents[n].priorities
        }),
{
    let n = before.torrents@.len() as int;
    let index = n as usize;
    let stored = seq![Effect::PersistTorrents];
    let config = if order.save_path is Some {
        seq![Effect::SaveConfig]
    } else {
        Seq::<Effect>::empty()
    };
    let first = if order.start_paused {
        crate::requests::pause_effects(index, source, facts.file_priorities@)
    } else {
        Seq::<Effect>::empty()
    };
    assert(out.effects@ =~= first + stored + config);
    lemma_done_joined(w, first + stored, config);
    lemma_done_joined(w, first, stored);
    let one = all_done(w, first);
    lemma_one_done(one, stored);
    let two = all_done(one, stored);
    if order.save_path is Some {
        lemma_one_done(two, config);
    }
    if order.start_paused {
        let pause = seq![Effect::Pause { index }];
        lemma_one_done(w, pause);
        let mid = all_done(w, pause);
        match source {
            Source::File(_) => {
                let rest = unskipped(
                    index,
                    facts.file_priorities@,
                    facts.file_priorities@.len() as int,
                );
                assert(first =~= pause + rest);
                lemma_done_joined(w, pause, rest);
                lemma_unskipped_done(
                    mid,
                    index,
                    facts.file_priorities@,
                    facts.file_priorities@.len() as int,
                );
            },
            Source::Magnet(_) => {
                assert(first =~= pause);
            },
        }
    }
}

/// A torrent that could not be added leaves everything as it was, and the reason is told.
pub proof fn law_failed_addition_changes_nothing(
    before: App,
    after: App,
    order: AddOrder,
    source: Source,
    reason: String,
    out: Answer,
)
    requires
        add_finished(before, after, order, source, Err(reason), out),
    ensures
        after == before,
        out.effects@.len() == 0,
        out.response == Response::Failed(reason),
{
}

/// What is ordered to be added is what the request says: into the folder that it names, else
/// that of its category, else the default one, with the tags of its category.
pub proof fn law_orders_say_what_was_asked(
    before: App,
    after: App,
    request: Request,
    facts: Facts,
    out: Handling,
)
    requires
        handled(before, after, request, facts, out),
        request is Add,
    ensures
        after == before,
        request matches Request::Add { uri, save_path, category, start_paused, content_layout } && (
        out matches Handling::Add(order) && {
            &&& order.uri == uri
            &&& order.save_path == save_path
            &&& order.category == category
            &&& order.start_paused == start_paused
            &&& order.content_layout == content_layout
            &&& save_path matches Some(path) ==> order.target@ == path@
            &&& save_path is None && (category matches Some(name) && before.categories.entries.has(
                name@,
            )) ==> order.target@ == before.categories.entries.at(category->0@).save_path@
            &&& save_path is None && (category is None || !before.categories.entries.has(
                category->0@,
            )) ==> order.target@ == before.config.default_save_path@
            &&& forall|tag: Seq<char>| #[trigger]
                order.tags.has(tag) <==> (category is Some && before.categories.entries.has(
                    category->0@,
                ) && texts(
                    before.categories.entries.at(category->0@).add_tags@,
                ).contains(tag))
        }),
{
}

// ----- configuration and feeds -----

/// A request to poll has the feeds polled, all of them due.
pub proof fn law_polling_on_request_polls_all(
    before: App,
    after: App,
    facts: Facts,
    out: Handling,
    w: World,
    i: int,
)
    requires
        handled(before, after, Request::PollFeeds, facts, out),
        0 <= i < before.rss_feeds.feeds@.len(),
    ensures
        answered(w, out, World { polls: w.polls + 1, ..w }, Response::Done),
        !after.rss_last_polled.has(before.rss_feeds.feeds@[i].url@),
        after.rss_feeds == before.rss_feeds,
{
    lemma_one_done(w, out->Reply_0.effects@);
    let feeds = before.rss_feeds.feeds@;
    assert(crate::requests::subscribed(feeds, feeds.len() as int, feeds[i].url@));
}

/// A feed that is added is among the feeds with all that was said of it, and the feeds are
/// stored; one that is removed is not, and the others stay in their order.
pub proof fn law_feeds_are_added_and_removed(
    before: App,
    after: App,
    request: Request,
    facts: Facts,
    out: Handling,
)
    requires
        handled(before, after, request, facts, out),
        request is AddFeed || (request matches Request::RemoveFeed { index } && index
            < before.rss_feeds.feeds@.len()),
    ensures
        out matches Handling::Reply(a) && a.effects@.len() == 0 && a.save == Some(
            SaveFile::Feeds,
        ) && a.response == Response::Done,
        after.torrents == before.torrents && after.config == before.config,
        request matches Request::AddFeed {
            url,
            filter,
            category,
            save_path,
            poll_interval_minutes,
            start_paused,
        } ==> exists|k: int| {
            let feed = #[trigger] after.rss_feeds.feeds@[k];
            &&& 0 <= k < after.rss_feeds.feeds@.len()
            &&& feed.url == url
            &&& feed.filter == filter
            &&& feed.category == category
            &&& feed.save_path == save_path
            &&& feed.poll_interval_minutes == poll_interval_minutes
            &&& feed.start_paused == start_paused
        },
        request matches Request::RemoveFeed { index } ==> after.rss_feeds.feeds@
            == before.rss_feeds.feeds@.remove(index as int),
{
    if let Request::AddFeed {
        url,
        filter,
        category,
        save_path,
        poll_interval_minutes,
        start_paused,
    } = request {
        let feeds = before.rss_feeds.feeds@;
        let feed = crate::rss::RssFeed {
            url,
            filter,
            category,
            save_path,
            poll_interval_minutes,
            start_paused,
        };
        let k = choose|k: int| #[trigger]
            crate::requests::is_feed_position(feeds, feed.url@, k) && (if k < feeds.len() {
                &&& after.rss_feeds.feeds@ == feeds.update(k, feed)
                &&& after.rss_last_polled == before.rss_last_polled
            } else {
                &&& after.rss_feeds.feeds@ == feeds.push(feed)
                &&& !after.rss_last_polled.has(feed.url@)
                &&& crate::requests::same_polls_but(before, after, feed.url@)
            });
        assert(after.rss_feeds.feeds@[k] == feed);
    }
}

} // verus!
