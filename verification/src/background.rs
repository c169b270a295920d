//! What the daemon does by itself between requests.

use crate::bridge::{AlertInfo, TorrentStatus};
use crate::config::{is_blank, Config};
use crate::ipc::ContentLayout;
use crate::layout::{compute_content_layout_renames, layout_renames, rename_view};
use crate::names::NameSet;
use crate::requests::is_order;
use crate::server::{copy_text, AddOrder, App, Effect, ManagedTorrent, TorrentFacts, TorrentRecord};
use crate::sources::Source;
use crate::text::{contains, ends_with, has_suffix, occurs, same, texts, trim};
use vstd::prelude::*;

verus! {

// ----- the stored list -----

/// What is stored of a torrent.
pub open spec fn is_record(record: TorrentRecord, torrent: ManagedTorrent) -> bool {
    &&& record == (TorrentRecord {
        info_hash: torrent.info_hash,
        magnet_uri: torrent.magnet_uri,
        torrent_path: torrent.torrent_path,
        save_path: torrent.save_path,
        tags: record.tags,
        category: torrent.category,
        interface_override: torrent.interface_override,
        display_name: torrent.display_name,
        pending_layout: torrent.pending_layout,
    })
    &&& record.tags.list() == torrent.tags.list()
    &&& torrent.tags.wf() ==> record.tags.wf()
}

/// The torrent that a record comes to when the session gives it that hash.
pub open spec fn restored_torrent(record: TorrentRecord, info_hash: String) -> ManagedTorrent {
    ManagedTorrent {
        magnet_uri: record.magnet_uri,
        torrent_path: record.torrent_path,
        save_path: record.save_path,
        info_hash,
        tags: record.tags,
        category: record.category,
        interface_override: record.interface_override,
        display_name: record.display_name,
        was_finished: false,
        pending_layout: record.pending_layout,
    }
}

/// What a record is added from: its magnet link, else its torrent file.
pub open spec fn record_source_of(record: TorrentRecord) -> Option<Source> {
    match record.magnet_uri {
        Some(link) => Some(Source::Magnet(link)),
        None => match record.torrent_path {
            Some(path) => Some(Source::File(path)),
            None => None,
        },
    }
}

/// What a record is added from.
pub fn record_source(record: &TorrentRecord) -> (r: Option<Source>)
    ensures
        r == record_source_of(*record),
{
    match &record.magnet_uri {
        Some(link) => Some(Source::Magnet(link.clone())),
        None => match &record.torrent_path {
            Some(path) => Some(Source::File(path.clone())),
            None => None,
        },
    }
}

impl App {
    /// What is stored of the torrents.
    pub fn records(&self) -> (r: Vec<TorrentRecord>)
        ensures
            r@.len() == self.torrents@.len(),
            forall|i: int| 0 <= i < r@.len() ==> is_record(#[trigger] r@[i], self.torrents@[i]),
    {
        let mut out: Vec<TorrentRecord> = Vec::new();
        let mut i: usize = 0;
        while i < self.torrents.len()
            invariant
                i <= self.torrents@.len(),
                out@.len() == i,
                forall|j: int| 0 <= j < i ==> is_record(#[trigger] out@[j], self.torrents@[j]),
            decreases self.torrents@.len() - i,
        {
            let t = &self.torrents[i];
            out.push(
                TorrentRecord {
                    info_hash: t.info_hash.clone(),
                    magnet_uri: copy_text(&t.magnet_uri),
                    torrent_path: copy_text(&t.torrent_path),
                    save_path: t.save_path.clone(),
                    tags: t.tags.duplicate(),
                    category: copy_text(&t.category),
                    interface_override: copy_text(&t.interface_override),
                    display_name: copy_text(&t.display_name),
                    pending_layout: t.pending_layout,
                },
            );
            i = i + 1;
        }
        out
    }

    /// Takes up a stored torrent that the session has added again under that hash.
    pub fn restore(&mut self, record: TorrentRecord, info_hash: String) -> (r: Vec<Effect>)
        requires
            old(self).wf(),
            record.tags.wf(),
        ensures
            final(self).wf(),
            *final(self) == (App { torrents: final(self).torrents, ..*old(self) }),
            final(self).torrents@ == old(self).torrents@.push(restored_torrent(record, info_hash)),
            r@ == (match record.interface_override {
                Some(name) => seq![
                    Effect::UseInterface { index: old(self).torrents@.len() as usize, name },
                ],
                None => Seq::empty(),
            }),
    {
        let index: usize = self.torrents.len();
        let mut effects: Vec<Effect> = Vec::new();
        if let Some(name) = &record.interface_override {
            effects.push(Effect::UseInterface { index, name: name.clone() });
            assert(effects@ =~= seq![Effect::UseInterface { index, name: *name }]);
        } else {
            assert(effects@ =~= Seq::<Effect>::empty());
        }
        self.torrents.push(
            ManagedTorrent {
                magnet_uri: record.magnet_uri,
                torrent_path: record.torrent_path,
                save_path: record.save_path,
                info_hash,
                tags: record.tags,
                category: record.category,
                interface_override: record.interface_override,
                display_name: record.display_name,
                was_finished: false,
                pending_layout: record.pending_layout,
            },
        );
        effects
    }

    /// The torrents of which resume data is to be saved: those that are valid and whose
    /// metadata is known.
    pub fn save_resume_data(&self, ready: &Vec<bool>) -> (r: Vec<Effect>)
        requires
            ready@.len() == self.torrents@.len(),
        ensures
            r@ == resume_saves(ready@, ready@.len() as int),
    {
        let mut out: Vec<Effect> = Vec::new();
        let mut i: usize = 0;
        assert(out@ =~= Seq::<Effect>::empty());
        while i < ready.len()
            invariant
                i <= ready@.len(),
                out@ == resume_saves(ready@, i as int),
            decreases ready@.len() - i,
        {
            if ready[i] {
                out.push(Effect::SaveResume { index: i });
            }
            i = i + 1;
        }
        out
    }
}

/// One request for resume data for each of the first `n` torrents that is ready.
pub open spec fn resume_saves(ready: Seq<bool>, n: int) -> Seq<Effect>
    decreases n,
{
    if n <= 0 {
        Seq::empty()
    } else if ready[n - 1] {
        resume_saves(ready, n - 1).push(Effect::SaveResume { index: (n - 1) as usize })
    } else {
        resume_saves(ready, n - 1)
    }
}

/// What is stored of a torrent brings it back as it was, but for whether it was seen finished.
pub proof fn law_stored_torrent_comes_back(torrent: ManagedTorrent, record: TorrentRecord)
    requires
        is_record(record, torrent),
    ensures
        ({
            let back = restored_torrent(record, record.info_hash);
            &&& back == (ManagedTorrent { tags: back.tags, was_finished: false, ..torrent })
            &&& back.tags.list() == torrent.tags.list()
        }),
        torrent.magnet_uri is Some || torrent.torrent_path is Some ==> record_source_of(
            record,
        ) is Some,
{
}

// ----- finished torrents -----

/// A torrent that has just finished, as the completion script and the notification are told.
#[derive(Debug, Clone, PartialEq, Eq)]
pub struct Firing {
    pub index: usize,
    pub name: String,
    pub hash: String,
    pub save_path: String,
    pub size: i64,
    pub category: Option<String>,
}

/// A completion script is configured.
pub open spec fn has_script(config: Config) -> bool {
    config.completion_script matches Some(path) && trim(path@).len() > 0
}

/// The torrent has just finished.
pub open spec fn just_finished(torrent: ManagedTorrent, facts: TorrentFacts) -> bool {
    facts.status.is_finished && !torrent.was_finished
}

/// The torrent with what was seen of it noted.
pub open spec fn finish_noted(
    torrent: ManagedTorrent,
    facts: TorrentFacts,
    script: bool,
) -> ManagedTorrent {
    ManagedTorrent {
        was_finished: if facts.status.is_finished {
            true
        } else if script {
            false
        } else {
            torrent.was_finished
        },
        ..torrent
    }
}

/// What is told of a torrent that has just finished.
pub open spec fn firing_of(index: int, torrent: ManagedTorrent, facts: TorrentFacts) -> Firing {
    Firing {
        index: index as usize,
        name: facts.status.name,
        hash: torrent.info_hash,
        save_path: torrent.save_path,
        size: facts.status.total_wanted,
        category: torrent.category,
    }
}

/// The firings of the first `n` torrents.
pub open spec fn firings(
    torrents: Seq<ManagedTorrent>,
    facts: Seq<TorrentFacts>,
    n: int,
) -> Seq<Firing>
    decreases n,
{
    if n <= 0 {
        Seq::empty()
    } else if just_finished(torrents[n - 1], facts[n - 1]) {
        firings(torrents, facts, n - 1).push(firing_of(n - 1, torrents[n - 1], facts[n - 1]))
    } else {
        firings(torrents, facts, n - 1)
    }
}

/// The resume data of each of the first `n` torrents that has just finished is saved.
pub open spec fn finish_saves(
    torrents: Seq<ManagedTorrent>,
    facts: Seq<TorrentFacts>,
    n: int,
) -> Seq<Effect>
    decreases n,
{
    if n <= 0 {
        Seq::empty()
    } else if just_finished(torrents[n - 1], facts[n - 1]) {
        finish_saves(torrents, facts, n - 1).push(Effect::SaveResume { index: (n - 1) as usize })
    } else {
        finish_saves(torrents, facts, n - 1)
    }
}

/// What the torrents that have just finished come to.
#[derive(Debug, Clone, PartialEq, Eq)]
pub struct Completion {
    /// the torrents that have just finished
    pub firings: Vec<Firing>,
    /// the script that is to be run for each of them
    pub script: Option<String>,
    /// whether a notification is to be sent for each of them
    pub notify: bool,
    pub effects: Vec<Effect>,
}

impl App {
    /// Looks for torrents that have just finished. Each is told once, whether or not a script
    /// is configured, so that a script that is configured later does not run for torrents that
    /// finished before.
    pub fn process_completion_hooks(&mut self, facts: &Vec<TorrentFacts>) -> (r: Completion)
        requires
            old(self).wf(),
            facts@.len() == old(self).torrents@.len(),
        ensures
            final(self).wf(),
            *final(self) == (App { torrents: final(self).torrents, ..*old(self) }),
            final(self).torrents@.len() == old(self).torrents@.len(),
            forall|i: int|
                0 <= i < facts@.len() ==> #[trigger] final(self).torrents@[i] == finish_noted(
                    old(self).torrents@[i],
                    facts@[i],
                    has_script(old(self).config),
                ),
            r.firings@ == firings(old(self).torrents@, facts@, facts@.len() as int),
            r.script is Some <==> has_script(old(self).config),
            r.script is Some ==> r.script == old(self).config.completion_script,
            r.notify == old(self).config.notifications_enabled,
            r.effects@ == (if has_script(old(self).config) {
                finish_saves(old(self).torrents@, facts@, facts@.len() as int)
            } else {
                Seq::empty()
            }),
    {
        let script = match &self.config.completion_script {
            Some(path) => if is_blank(path.as_str()) {
                None
            } else {
                Some(path.clone())
            },
            None => None,
        };
        let run = script.is_some();
        let notify = self.config.notifications_enabled;
        let ghost start = *self;
        let mut list: Vec<Firing> = Vec::new();
        let mut effects: Vec<Effect> = Vec::new();
        let mut i: usize = 0;
        assert(list@ =~= Seq::<Firing>::empty());
        assert(effects@ =~= Seq::<Effect>::empty());
        while i < self.torrents.len()
            invariant
                i <= self.torrents@.len(),
                self.wf(),
                start.wf(),
                run == has_script(start.config),
                facts@.len() == start.torrents@.len(),
                self.torrents@.len() == start.torrents@.len(),
                *self == (App { torrents: self.torrents, ..start }),
                forall|j: int| i <= j < facts@.len() ==> self.torrents@[j] == start.torrents@[j],
                forall|j: int|
                    0 <= j < i ==> #[trigger] self.torrents@[j] == finish_noted(
                        start.torrents@[j],
                        facts@[j],
                        run,
                    ),
                list@ == firings(start.torrents@, facts@, i as int),
                run ==> effects@ == finish_saves(start.torrents@, facts@, i as int),
                !run ==> effects@ == Seq::<Effect>::empty(),
            decreases start.torrents@.len() - i,
        {
            let status = &facts[i].status;
            if status.is_finished {
                if !self.torrents[i].was_finished {
                    let t = &self.torrents[i];
                    list.push(
                        Firing {
                            index: i,
                            name: status.name.clone(),
                            hash: t.info_hash.clone(),
                            save_path: t.save_path.clone(),
                            size: status.total_wanted,
                            category: copy_text(&t.category),
                        },
                    );
                    if run {
                        effects.push(Effect::SaveResume { index: i });
                    }
                }
                self.torrents[i].was_finished = true;
            } else if run {
                self.torrents[i].was_finished = false;
            }
            i = i + 1;
        }
        Completion { firings: list, script, notify, effects }
    }
}

/// A torrent that stays finished fires once: what was noted keeps it from firing again.
pub proof fn law_completion_fires_once(
    torrent: ManagedTorrent,
    facts: TorrentFacts,
    later: TorrentFacts,
    script: bool,
)
    requires
        facts.status.is_finished,
    ensures
        !just_finished(finish_noted(torrent, facts, script), later),
{
}

/// Every torrent that has just finished is told of, and no other: by its own position, hash,
/// folder and category, and by the name and size that the session reports of it.
pub proof fn law_firings_tell_what_finished(
    torrents: Seq<ManagedTorrent>,
    facts: Seq<TorrentFacts>,
    n: int,
)
    requires
        0 <= n <= torrents.len() == facts.len() <= usize::MAX,
    ensures
        forall|k: int|
            0 <= k < firings(torrents, facts, n).len() ==> {
                let f = #[trigger] firings(torrents, facts, n)[k];
                let t = torrents[f.index as int];
                let status = facts[f.index as int].status;
                &&& f.index < n
                &&& status.is_finished && !t.was_finished
                &&& f.hash == t.info_hash
                &&& f.save_path == t.save_path
                &&& f.category == t.category
                &&& f.name == status.name
                &&& f.size == status.total_wanted
            },
        forall|j: int, k: int|
            0 <= j < k < firings(torrents, facts, n).len() ==> (#[trigger] firings(
                torrents,
                facts,
                n,
            )[j]).index < (#[trigger] firings(torrents, facts, n)[k]).index,
        forall|i: int|
            0 <= i < n && (#[trigger] facts[i]).status.is_finished && !torrents[i].was_finished
                ==> exists|k: int|
                0 <= k < firings(torrents, facts, n).len() && (#[trigger] firings(
                    torrents,
                    facts,
                    n,
                )[k]).index == i,
    decreases n,
{
    if n > 0 {
        law_firings_tell_what_finished(torrents, facts, n - 1);
        let before = firings(torrents, facts, n - 1);
        let all = firings(torrents, facts, n);
        assert forall|k: int| 0 <= k < all.len() implies ({
            let f = #[trigger] all[k];
            let t = torrents[f.index as int];
            let status = facts[f.index as int].status;
            &&& f.index < n
            &&& status.is_finished && !t.was_finished
            &&& f.hash == t.info_hash
            &&& f.save_path == t.save_path
            &&& f.category == t.category
            &&& f.name == status.name
            &&& f.size == status.total_wanted
        }) by {
            if k < before.len() {
                assert(all[k] == before[k]);
            }
        }
        assert forall|j: int, k: int| 0 <= j < k < all.len() implies (#[trigger] all[j]).index < (
        #[trigger] all[k]).index by {
            assert(all[j] == before[j]);
            if k < before.len() {
                assert(all[k] == before[k]);
            }
        }
        assert forall|i: int|
            0 <= i < n && (#[trigger] facts[i]).status.is_finished
                && !torrents[i].was_finished implies exists|k: int|
            0 <= k < all.len() && (#[trigger] all[k]).index == i by {
            if i < n - 1 {
                let k = choose|k: int| 0 <= k < before.len() && (#[trigger] before[k]).index == i;
                assert(all[k] == before[k]);
            } else {
                assert(all[all.len() - 1].index == i);
            }
        }
    }
}

/// A torrent that is finished is noted as seen finished and changes in nothing else; one that is
/// not finished any more can be told of again where a script is configured.
pub proof fn law_finish_is_noted(torrent: ManagedTorrent, facts: TorrentFacts, script: bool)
    ensures
        ({
            let after = finish_noted(torrent, facts, script);
            &&& after.info_hash == torrent.info_hash
            &&& after.save_path == torrent.save_path
            &&& after.tags == torrent.tags
            &&& after.category == torrent.category
            &&& after.display_name == torrent.display_name
            &&& after.pending_layout == torrent.pending_layout
            &&& facts.status.is_finished ==> after.was_finished
            &&& !facts.status.is_finished && script ==> !after.was_finished
            &&& !facts.status.is_finished && !script ==> after.was_finished == torrent.was_finished
        }),
{
}

/// The resume data of exactly the torrents that have just finished is saved.
pub proof fn law_finished_torrents_are_saved(
    torrents: Seq<ManagedTorrent>,
    facts: Seq<TorrentFacts>,
    n: int,
    i: int,
)
    requires
        0 <= i < n <= torrents.len() == facts.len() <= usize::MAX,
    ensures
        finish_saves(torrents, facts, n).contains(Effect::SaveResume { index: i as usize })
            <==> facts[i].status.is_finished && !torrents[i].was_finished,
        forall|k: int|
            0 <= k < finish_saves(torrents, facts, n).len() ==> (#[trigger] finish_saves(
                torrents,
                facts,
                n,
            )[k] matches Effect::SaveResume { index } && index < n),
    decreases n,
{
    let all = finish_saves(torrents, facts, n);
    let before = finish_saves(torrents, facts, n - 1);
    let save = Effect::SaveResume { index: i as usize };
    if n > 1 {
        law_finished_torrents_are_saved(
            torrents,
            facts,
            n - 1,
            if i < n - 1 {
                i
            } else {
                0
            },
        );
    }
    assert forall|k: int| 0 <= k < all.len() implies (#[trigger] all[k] matches Effect::SaveResume {
        index,
    } && index < n) by {
        if k < before.len() {
            assert(all[k] == before[k]);
        }
    }
    if facts[n - 1].status.is_finished && !torrents[n - 1].was_finished {
        assert(all[all.len() - 1] == Effect::SaveResume { index: (n - 1) as usize });
    }
    if before.contains(save) {
        assert(all[before.index_of(save)] == save);
    }
    if all.contains(save) {
        let k = all.index_of(save);
        if k < before.len() {
            assert(before[k] == save);
        }
    }
}

/// Resume data is asked for of exactly the torrents that are ready.
pub proof fn law_ready_torrents_are_saved(ready: Seq<bool>, n: int, i: int)
    requires
        0 <= i < n <= ready.len() <= usize::MAX,
    ensures
        resume_saves(ready, n).contains(Effect::SaveResume { index: i as usize }) <==> ready[i],
        forall|k: int|
            0 <= k < resume_saves(ready, n).len() ==> (#[trigger] resume_saves(
                ready,
                n,
            )[k] matches Effect::SaveResume { index } && index < n),
    decreases n,
{
    let all = resume_saves(ready, n);
    let before = resume_saves(ready, n - 1);
    let save = Effect::SaveResume { index: i as usize };
    if n > 1 {
        law_ready_torrents_are_saved(
            ready,
            n - 1,
            if i < n - 1 {
                i
            } else {
                0
            },
        );
    }
    assert forall|k: int| 0 <= k < all.len() implies (#[trigger] all[k] matches Effect::SaveResume {
        index,
    } && index < n) by {
        if k < before.len() {
            assert(all[k] == before[k]);
        }
    }
    if ready[n - 1] {
        assert(all[all.len() - 1] == Effect::SaveResume { index: (n - 1) as usize });
    }
    if before.contains(save) {
        assert(all[before.index_of(save)] == save);
    }
    if all.contains(save) {
        let k = all.index_of(save);
        if k < before.len() {
            assert(before[k] == save);
        }
    }
}

// ----- seed limits -----

/// The torrent has seeded as much or as long as it should.
pub open spec fn limit_hit(config: Config, status: TorrentStatus) -> bool {
    let ratio = config.seed_ratio_limit;
    ||| {
        &&& !ratio.is_nan() && ratio.rank() > 0
        &&& !status.ratio.is_nan() && status.ratio.rank() >= ratio.rank()
    }
    ||| config.seed_time_limit > 0 && status.seeding_time >= config.seed_time_limit * 60
}

/// The torrent is to be acted on for a seed limit: it seeds, a limit is hit, and it was not
/// acted on before.
pub open spec fn seed_due(
    config: Config,
    acted: NameSet,
    torrent: ManagedTorrent,
    facts: TorrentFacts,
) -> bool {
    &&& facts.status.is_seeding && !facts.status.is_paused
    &&& !acted.has(torrent.info_hash@)
    &&& limit_hit(config, facts.status)
}

/// For each torrent, whether it is to be acted on.
pub open spec fn are_due(app: App, facts: Seq<TorrentFacts>, due: Seq<bool>) -> bool {
    &&& due.len() == app.torrents@.len()
    &&& forall|i: int|
        0 <= i < due.len() ==> #[trigger] due[i] == seed_due(
            app.config,
            app.seed_limit_acted,
            app.torrents@[i],
            facts[i],
        )
}

/// The torrents from position `i` on that are not marked.
pub open spec fn kept_from(torrents: Seq<ManagedTorrent>, marked: Seq<bool>, i: int) -> Seq<
    ManagedTorrent,
>
    decreases torrents.len() - i,
{
    if i >= torrents.len() {
        Seq::empty()
    } else if marked[i] {
        kept_from(torrents, marked, i + 1)
    } else {
        seq![torrents[i]] + kept_from(torrents, marked, i + 1)
    }
}

/// The removals of the marked torrents from position `i` on, the last one first.
pub open spec fn removals(torrents: Seq<ManagedTorrent>, marked: Seq<bool>, i: int) -> Seq<Effect>
    decreases torrents.len() - i,
{
    if i >= torrents.len() {
        Seq::empty()
    } else {
        let later = removals(torrents, marked, i + 1);
        if marked[i] {
            later.push(
                Effect::RemoveTorrent {
                    index: i as usize,
                    delete_files: false,
                    info_hash: torrents[i].info_hash,
                },
            )
        } else {
            later
        }
    }
}

/// The pauses of the marked torrents among the first `n`.
pub open spec fn pauses(marked: Seq<bool>, n: int) -> Seq<Effect>
    decreases n,
{
    if n <= 0 {
        Seq::empty()
    } else {
        let before = pauses(marked, n - 1);
        if marked[n - 1] {
            before.push(Effect::Pause { index: (n - 1) as usize }).push(
                Effect::SaveResume { index: (n - 1) as usize },
            )
        } else {
            before
        }
    }
}

/// One of the first `n` torrents is marked and has the hash.
pub open spec fn marked_hash(
    torrents: Seq<ManagedTorrent>,
    marked: Seq<bool>,
    n: int,
    hash: Seq<char>,
) -> bool {
    exists|i: int| 0 <= i < n && #[trigger] marked[i] && torrents[i].info_hash@ == hash
}

/// What holding the torrents against the seed limits comes to.
pub open spec fn limits_checked(
    before: App,
    after: App,
    facts: Seq<TorrentFacts>,
    effects: Seq<Effect>,
) -> bool {
    exists|due: Seq<bool>| #[trigger]
        are_due(before, facts, due) && ({
            let torrents = before.torrents@;
            &&& forall|h: Seq<char>| #[trigger]
                after.seed_limit_acted.has(h) <==> (before.seed_limit_acted.has(h) || marked_hash(
                    torrents,
                    due,
                    due.len() as int,
                    h,
                ))
            &&& after == (App {
                torrents: after.torrents,
                seed_limit_acted: after.seed_limit_acted,
                ..before
            })
            &&& if before.config.seed_ratio_action@ == "remove"@ {
                let gone = removals(torrents, due, 0);
                &&& after.torrents@ == kept_from(torrents, due, 0)
                &&& effects == (if gone.len() > 0 {
                    gone.push(Effect::PersistTorrents)
                } else {
                    gone
                })
            } else {
                &&& after.torrents@ == torrents
                &&& effects == pauses(due, due.len() as int)
            }
        })
}

impl App {
    /// For each torrent, whether it is to be acted on for a seed limit.
    fn seeds_due(&self, facts: &Vec<TorrentFacts>) -> (due: Vec<bool>)
        requires
            self.wf(),
            facts@.len() == self.torrents@.len(),
        ensures
            are_due(*self, facts@, due@),
    {
        let ratio = self.config.seed_ratio_limit;
        let minutes: i32 = self.config.seed_time_limit;
        let mut due: Vec<bool> = Vec::new();
        let mut i: usize = 0;
        while i < self.torrents.len()
            invariant
                i <= self.torrents@.len(),
                self.wf(),
                facts@.len() == self.torrents@.len(),
                ratio == self.config.seed_ratio_limit,
                minutes == self.config.seed_time_limit,
                due@.len() == i,
                forall|j: int|
                    0 <= j < i ==> #[trigger] due@[j] == seed_due(
                        self.config,
                        self.seed_limit_acted,
                        self.torrents@[j],
                        facts@[j],
                    ),
            decreases self.torrents@.len() - i,
        {
            let status = &facts[i].status;
            let ratio_hit = ratio.is_positive() && status.ratio.at_least(ratio);
            let time_hit = minutes > 0 && status.seeding_time >= (minutes as i64) * 60;
            due.push(
                status.is_seeding && !status.is_paused && !self.seed_limit_acted.contains(
                    self.torrents[i].info_hash.as_str(),
                ) && (ratio_hit || time_hit),
            );
            i = i + 1;
        }
        due
    }

    /// Notes the marked torrents as acted on.
    fn note_acted(&mut self, marked: &Vec<bool>)
        requires
            old(self).wf(),
            marked@.len() == old(self).torrents@.len(),
        ensures
            final(self).wf(),
            *final(self) == (App { seed_limit_acted: final(self).seed_limit_acted, ..*old(self) }),
            forall|h: Seq<char>| #[trigger]
                final(self).seed_limit_acted.has(h) <==> (old(self).seed_limit_acted.has(h)
                    || marked_hash(old(self).torrents@, marked@, marked@.len() as int, h)),
    {
        let ghost start = *self;
        let mut i: usize = 0;
        while i < marked.len()
            invariant
                i <= marked@.len(),
                marked@.len() == start.torrents@.len(),
                self.wf(),
                *self == (App { seed_limit_acted: self.seed_limit_acted, ..start }),
                forall|h: Seq<char>| #[trigger]
                    self.seed_limit_acted.has(h) <==> (start.seed_limit_acted.has(h)
                        || marked_hash(start.torrents@, marked@, i as int, h)),
            decreases marked@.len() - i,
        {
            let ghost before = self.seed_limit_acted;
            if marked[i] {
                let hash = self.torrents[i].info_hash.clone();
                self.seed_limit_acted.insert(hash.as_str());
            }
            proof {
                assert forall|h: Seq<char>| #[trigger]
                    self.seed_limit_acted.has(h) <==> (start.seed_limit_acted.has(h)
                        || marked_hash(start.torrents@, marked@, i + 1, h)) by {
                    assert(before.has(h) == (start.seed_limit_acted.has(h) || marked_hash(
                        start.torrents@,
                        marked@,
                        i as int,
                        h,
                    )));
                    if marked_hash(start.torrents@, marked@, i as int, h) {
                        let k = choose|k: int|
                            0 <= k < i && #[trigger] marked@[k] && start.torrents@[k].info_hash@
                                == h;
                        assert(marked@[k]);
                    }
                    if marked@[i as int] && start.torrents@[i as int].info_hash@ == h {
                        assert(marked_hash(start.torrents@, marked@, i + 1, h));
                    }
                }
            }
            i = i + 1;
        }
    }

    /// Pauses or removes the torrents that have hit a seed limit, as configured. Each is acted
    /// on once, until it is resumed by hand.
    pub fn check_seed_limits(&mut self, facts: &Vec<TorrentFacts>) -> (r: Vec<Effect>)
        requires
            old(self).wf(),
            facts@.len() == old(self).torrents@.len(),
        ensures
            final(self).wf(),
            limits_checked(*old(self), *final(self), facts@, r@),
    {
        let due = self.seeds_due(facts);
        self.note_acted(&due);
        let ghost torrents = self.torrents@;
        let ghost start = *self;
        assert(are_due(*old(self), facts@, due@));
        let mut effects: Vec<Effect> = Vec::new();
        assert(effects@ =~= Seq::<Effect>::empty());
        if same(self.config.seed_ratio_action.as_str(), "remove") {
            let mut i: usize = self.torrents.len();
            assert(torrents.take(i as int) + kept_from(torrents, due@, i as int) =~= torrents);
            while i > 0
                invariant
                    i <= torrents.len() == due@.len(),
                    torrents == start.torrents@,
                    start.wf(),
                    self.wf(),
                    *self == (App { torrents: self.torrents, ..start }),
                    self.torrents@ == torrents.take(i as int) + kept_from(
                        torrents,
                        due@,
                        i as int,
                    ),
                    effects@ == removals(torrents, due@, i as int),
                decreases i,
            {
                let at: usize = i - 1;
                if due[at] {
                    let ghost before = self.torrents@;
                    assert(before[at as int] == torrents[at as int]);
                    let gone = self.torrents.remove(at);
                    effects.push(
                        Effect::RemoveTorrent {
                            index: at,
                            delete_files: false,
                            info_hash: gone.info_hash,
                        },
                    );
                    assert(self.torrents@ =~= torrents.take(at as int) + kept_from(
                        torrents,
                        due@,
                        at as int,
                    ));
                    assert forall|j: int| 0 <= j < self.torrents@.len() implies (#[trigger] self.torrents@[j]).tags.wf() by {
                        let k = if j < at { j } else { j + 1 };
                        assert(self.torrents@[j] == before[k]);
                    }
                } else {
                    assert(self.torrents@ =~= torrents.take(at as int) + kept_from(
                        torrents,
                        due@,
                        at as int,
                    ));
                }
                i = at;
            }
            assert(self.torrents@ =~= kept_from(torrents, due@, 0));
            if effects.len() > 0 {
                effects.push(Effect::PersistTorrents);
            }
        } else {
            let mut i: usize = 0;
            while i < due.len()
                invariant
                    i <= due@.len(),
                    effects@ == pauses(due@, i as int),
                decreases due@.len() - i,
            {
                if due[i] {
                    effects.push(Effect::Pause { index: i });
                    effects.push(Effect::SaveResume { index: i });
                }
                i = i + 1;
            }
        }
        effects
    }
}

/// Which torrents are paused.
proof fn lemma_pauses(marked: Seq<bool>, n: int, i: int)
    requires
        0 <= n <= marked.len() <= usize::MAX,
        0 <= i < marked.len(),
    ensures
        pauses(marked, n).contains(Effect::Pause { index: i as usize }) <==> i < n && marked[i],
        pauses(marked, n).contains(Effect::SaveResume { index: i as usize }) <==> i < n && marked[i],
        forall|k: int|
            0 <= k < pauses(marked, n).len() ==> {
                ||| (#[trigger] pauses(marked, n)[k]) is Pause
                ||| pauses(marked, n)[k] is SaveResume
            },
    decreases n,
{
    if n > 0 {
        lemma_pauses(marked, n - 1, i);
        let before = pauses(marked, n - 1);
        let all = pauses(marked, n);
        let pause = Effect::Pause { index: i as usize };
        let save = Effect::SaveResume { index: i as usize };
        if marked[n - 1] {
            assert(all[before.len() as int] == Effect::Pause { index: (n - 1) as usize });
            assert(all[before.len() as int + 1] == Effect::SaveResume { index: (n - 1) as usize });
            assert forall|e: Effect| before.contains(e) implies #[trigger] all.contains(e) by {
                assert(all[before.index_of(e)] == e);
            }
            if all.contains(pause) {
                let k = all.index_of(pause);
                if k < before.len() {
                    assert(before[k] == pause);
                }
            }
            if all.contains(save) {
                let k = all.index_of(save);
                if k < before.len() {
                    assert(before[k] == save);
                }
            }
            assert forall|k: int| 0 <= k < all.len() implies (#[trigger] all[k]) is Pause
                || all[k] is SaveResume by {
                if k < before.len() {
                    assert(all[k] == before[k]);
                }
            }
            assert(before.contains(pause) ==> all.contains(pause));
            assert(before.contains(save) ==> all.contains(save));
        }
    }
}

/// Which torrents are removed.
proof fn lemma_removals(torrents: Seq<ManagedTorrent>, marked: Seq<bool>, from: int, i: int)
    requires
        0 <= from <= torrents.len() == marked.len() <= usize::MAX,
        0 <= i < marked.len(),
    ensures
        (exists|k: int|
            0 <= k < removals(torrents, marked, from).len() && (#[trigger] removals(
                torrents,
                marked,
                from,
            )[k] matches Effect::RemoveTorrent { index, delete_files, info_hash } && index == i
                && !delete_files && info_hash == torrents[i].info_hash)) <==> from <= i && marked[i],
        forall|k: int|
            0 <= k < removals(torrents, marked, from).len() ==> (#[trigger] removals(
                torrents,
                marked,
                from,
            )[k] matches Effect::RemoveTorrent { index, delete_files, .. } && index >= from
                && !delete_files),
    decreases torrents.len() - from,
{
    if from < torrents.len() {
        lemma_removals(torrents, marked, from + 1, i);
        let later = removals(torrents, marked, from + 1);
        let all = removals(torrents, marked, from);
        if marked[from] {
            assert(all[later.len() as int] == Effect::RemoveTorrent {
                index: from as usize,
                delete_files: false,
                info_hash: torrents[from].info_hash,
            });
            assert forall|k: int| 0 <= k < all.len() implies (#[trigger] all[k] matches Effect::RemoveTorrent {
                index,
                delete_files,
                ..
            } && index >= from && !delete_files) by {
                if k < later.len() {
                    assert(all[k] == later[k]);
                }
            }
            if from < i && marked[i] {
                let k = choose|k: int|
                    0 <= k < later.len() && (#[trigger] later[k] matches Effect::RemoveTorrent {
                        index,
                        delete_files,
                        info_hash,
                    } && index == i && !delete_files && info_hash == torrents[i].info_hash);
                assert(all[k] == later[k]);
            }
            if exists|k: int|
                0 <= k < all.len() && (#[trigger] all[k] matches Effect::RemoveTorrent {
                    index,
                    delete_files,
                    info_hash,
                } && index == i && !delete_files && info_hash == torrents[i].info_hash) {
                let k = choose|k: int|
                    0 <= k < all.len() && (#[trigger] all[k] matches Effect::RemoveTorrent {
                        index,
                        delete_files,
                        info_hash,
                    } && index == i && !delete_files && info_hash == torrents[i].info_hash);
                if k < later.len() {
                    assert(later[k] == all[k]);
                }
            }
        }
    }
}

/// The torrent at position `i` is acted on: it is paused or removed, as the effects say.
pub open spec fn acted_on(effects: Seq<Effect>, i: int) -> bool {
    exists|k: int|
        0 <= k < effects.len() && match #[trigger] effects[k] {
            Effect::Pause { index } => index == i,
            Effect::RemoveTorrent { index, .. } => index == i,
            _ => false,
        }
}

/// The torrents that are acted on are those that are due.
proof fn lemma_acted_on(
    before: App,
    after: App,
    facts: Seq<TorrentFacts>,
    effects: Seq<Effect>,
    i: int,
)
    requires
        limits_checked(before, after, facts, effects),
        0 <= i < before.torrents@.len() == facts.len() <= usize::MAX,
    ensures
        acted_on(effects, i) <==> seed_due(
            before.config,
            before.seed_limit_acted,
            before.torrents@[i],
            facts[i],
        ),
        acted_on(effects, i) ==> after.seed_limit_acted.has(before.torrents@[i].info_hash@),
{
    let torrents = before.torrents@;
    let due = choose|due: Seq<bool>| #[trigger]
        are_due(before, facts, due) && ({
            &&& forall|h: Seq<char>| #[trigger]
                after.seed_limit_acted.has(h) <==> (before.seed_limit_acted.has(h) || marked_hash(
                    torrents,
                    due,
                    due.len() as int,
                    h,
                ))
            &&& after == (App {
                torrents: after.torrents,
                seed_limit_acted: after.seed_limit_acted,
                ..before
            })
            &&& if before.config.seed_ratio_action@ == "remove"@ {
                let gone = removals(torrents, due, 0);
                &&& after.torrents@ == kept_from(torrents, due, 0)
                &&& effects == (if gone.len() > 0 {
                    gone.push(Effect::PersistTorrents)
                } else {
                    gone
                })
            } else {
                &&& after.torrents@ == torrents
                &&& effects == pauses(due, due.len() as int)
            }
        });
    assert(due[i] == seed_due(before.config, before.seed_limit_acted, torrents[i], facts[i]));
    if due[i] {
        assert(marked_hash(torrents, due, due.len() as int, torrents[i].info_hash@));
    }
    if before.config.seed_ratio_action@ == "remove"@ {
        let gone = removals(torrents, due, 0);
        lemma_removals(torrents, due, 0, i);
        if due[i] {
            let k = choose|k: int|
                0 <= k < gone.len() && (#[trigger] gone[k] matches Effect::RemoveTorrent {
                    index,
                    delete_files,
                    info_hash,
                } && index == i && !delete_files && info_hash == torrents[i].info_hash);
            assert(effects[k] == gone[k]);
        }
        if acted_on(effects, i) {
            let k = choose|k: int|
                0 <= k < effects.len() && match #[trigger] effects[k] {
                    Effect::Pause { index } => index == i,
                    Effect::RemoveTorrent { index, .. } => index == i,
                    _ => false,
                };
            assert(k < gone.len());
            assert(gone[k] == effects[k]);
            lemma_removals_name_hashes(torrents, due, 0, k);
        }
    } else {
        lemma_pauses(due, due.len() as int, i);
        let pause = Effect::Pause { index: i as usize };
        if due[i] {
            let k = effects.index_of(pause);
            assert(effects[k] == pause);
        }
        if acted_on(effects, i) {
            let k = choose|k: int|
                0 <= k < effects.len() && match #[trigger] effects[k] {
                    Effect::Pause { index } => index == i,
                    Effect::RemoveTorrent { index, .. } => index == i,
                    _ => false,
                };
            assert(effects[k] == pause);
        }
    }
}

/// A removal names the hash of the torrent that it removes.
proof fn lemma_removals_name_hashes(
    torrents: Seq<ManagedTorrent>,
    marked: Seq<bool>,
    from: int,
    k: int,
)
    requires
        0 <= from <= torrents.len() == marked.len() <= usize::MAX,
        0 <= k < removals(torrents, marked, from).len(),
    ensures
        removals(torrents, marked, from)[k] matches Effect::RemoveTorrent {
            index,
            delete_files,
            info_hash,
        } && index < torrents.len() && !delete_files && info_hash == torrents[index as int].info_hash,
    decreases torrents.len() - from,
{
    let later = removals(torrents, marked, from + 1);
    if marked[from] {
        if k < later.len() {
            lemma_removals_name_hashes(torrents, marked, from + 1, k);
            assert(removals(torrents, marked, from)[k] == later[k]);
        }
    } else {
        lemma_removals_name_hashes(torrents, marked, from + 1, k);
    }
}

/// With a limit on the time alone, counted in minutes, a torrent is acted on exactly when it
/// seeds, is not paused, was not acted on before, and has seeded for sixty seconds for each of
/// the minutes.
pub proof fn law_time_limit_is_in_minutes(
    before: App,
    after: App,
    facts: Seq<TorrentFacts>,
    effects: Seq<Effect>,
    i: int,
)
    requires
        limits_checked(before, after, facts, effects),
        0 <= i < before.torrents@.len() == facts.len() <= usize::MAX,
        before.config.seed_ratio_limit.rank() <= 0,
        before.config.seed_time_limit > 0,
    ensures
        acted_on(effects, i) <==> {
            &&& facts[i].status.is_seeding
            &&& !facts[i].status.is_paused
            &&& !before.seed_limit_acted.has(before.torrents@[i].info_hash@)
            &&& facts[i].status.seeding_time >= 60 * before.config.seed_time_limit
        },
{
    lemma_acted_on(before, after, facts, effects, i);
}

/// With a limit on the ratio alone, a torrent is acted on exactly when it seeds, is not paused,
/// was not acted on before, and its ratio has reached the limit.
pub proof fn law_ratio_limit_is_reached(
    before: App,
    after: App,
    facts: Seq<TorrentFacts>,
    effects: Seq<Effect>,
    i: int,
)
    requires
        limits_checked(before, after, facts, effects),
        0 <= i < before.torrents@.len() == facts.len() <= usize::MAX,
        0 < before.config.seed_ratio_limit.bits <= 0x7FF0_0000_0000_0000,
        before.config.seed_time_limit <= 0,
        facts[i].status.ratio.bits <= 0x7FF0_0000_0000_0000,
    ensures
        acted_on(effects, i) <==> {
            &&& facts[i].status.is_seeding
            &&& !facts[i].status.is_paused
            &&& !before.seed_limit_acted.has(before.torrents@[i].info_hash@)
            &&& facts[i].status.ratio.bits >= before.config.seed_ratio_limit.bits
        },
{
    lemma_acted_on(before, after, facts, effects, i);
}

/// With both limits, either one is enough, and without any no torrent is acted on.
pub proof fn law_either_limit_is_enough(
    before: App,
    after: App,
    facts: Seq<TorrentFacts>,
    effects: Seq<Effect>,
    i: int,
)
    requires
        limits_checked(before, after, facts, effects),
        0 <= i < before.torrents@.len() == facts.len() <= usize::MAX,
        facts[i].status.is_seeding,
        !facts[i].status.is_paused,
        !before.seed_limit_acted.has(before.torrents@[i].info_hash@),
        before.config.seed_ratio_limit.bits <= 0x7FF0_0000_0000_0000,
        facts[i].status.ratio.bits <= 0x7FF0_0000_0000_0000,
    ensures
        acted_on(effects, i) <==> {
            ||| before.config.seed_time_limit > 0 && facts[i].status.seeding_time >= 60
                * before.config.seed_time_limit
            ||| before.config.seed_ratio_limit.bits > 0 && facts[i].status.ratio.bits
                >= before.config.seed_ratio_limit.bits
        },
{
    lemma_acted_on(before, after, facts, effects, i);
}

/// What has hit a limit is paused where the action is not removal, and its resume data saved;
/// nothing is removed then.
pub proof fn law_limits_pause(
    before: App,
    after: App,
    facts: Seq<TorrentFacts>,
    effects: Seq<Effect>,
    i: int,
)
    requires
        limits_checked(before, after, facts, effects),
        0 <= i < before.torrents@.len() == facts.len() <= usize::MAX,
        before.config.seed_ratio_action@ != "remove"@,
    ensures
        after.torrents == before.torrents || after.torrents@ == before.torrents@,
        forall|k: int|
            0 <= k < effects.len() ==> (#[trigger] effects[k]) is Pause || effects[k] is SaveResume,
        acted_on(effects, i) ==> effects.contains(Effect::Pause { index: i as usize })
            && effects.contains(Effect::SaveResume { index: i as usize })
            && after.seed_limit_acted.has(before.torrents@[i].info_hash@),
        !acted_on(effects, i) ==> !effects.contains(Effect::SaveResume { index: i as usize }),
{
    lemma_acted_on(before, after, facts, effects, i);
    let torrents = before.torrents@;
    let due = choose|due: Seq<bool>| #[trigger]
        are_due(before, facts, due) && ({
            &&& forall|h: Seq<char>| #[trigger]
                after.seed_limit_acted.has(h) <==> (before.seed_limit_acted.has(h) || marked_hash(
                    torrents,
                    due,
                    due.len() as int,
                    h,
                ))
            &&& after == (App {
                torrents: after.torrents,
                seed_limit_acted: after.seed_limit_acted,
                ..before
            })
            &&& if before.config.seed_ratio_action@ == "remove"@ {
                let gone = removals(torrents, due, 0);
                &&& after.torrents@ == kept_from(torrents, due, 0)
                &&& effects == (if gone.len() > 0 {
                    gone.push(Effect::PersistTorrents)
                } else {
                    gone
                })
            } else {
                &&& after.torrents@ == torrents
                &&& effects == pauses(due, due.len() as int)
            }
        });
    assert(due[i] == seed_due(before.config, before.seed_limit_acted, torrents[i], facts[i]));
    lemma_pauses(due, due.len() as int, i);
}

/// What is not marked stays, in its order; what is marked goes.
proof fn lemma_kept(torrents: Seq<ManagedTorrent>, marked: Seq<bool>, from: int, i: int)
    requires
        0 <= from <= i < torrents.len() == marked.len(),
    ensures
        !marked[i] ==> kept_from(torrents, marked, from).contains(torrents[i]),
        forall|x: ManagedTorrent| #[trigger]
            kept_from(torrents, marked, from).contains(x) ==> exists|j: int|
                from <= j < torrents.len() && !marked[j] && #[trigger] torrents[j] == x,
    decreases torrents.len() - from,
{
    let all = kept_from(torrents, marked, from);
    let later = kept_from(torrents, marked, from + 1);
    if from + 1 < torrents.len() {
        lemma_kept(
            torrents,
            marked,
            from + 1,
            if i > from {
                i
            } else {
                from + 1
            },
        );
    }
    if !marked[from] {
        assert(all[0] == torrents[from]);
        assert forall|x: ManagedTorrent| later.contains(x) implies all.contains(x) by {
            assert(all[later.index_of(x) + 1] == x);
        }
        if i > from && !marked[i] {
            assert(later.contains(torrents[i]));
        }
    }
    assert forall|x: ManagedTorrent| #[trigger] all.contains(x) implies exists|j: int|
        from <= j < torrents.len() && !marked[j] && #[trigger] torrents[j] == x by {
        if marked[from] {
            assert(later.contains(x));
        } else if all.index_of(x) == 0 {
            assert(torrents[from] == x);
        } else {
            assert(later[all.index_of(x) - 1] == x);
            assert(later.contains(x));
        }
        if from + 1 == torrents.len() {
            assert(later.len() == 0);
        } else if later.contains(x) {
            let j = choose|j: int|
                from + 1 <= j < torrents.len() && !marked[j] && #[trigger] torrents[j] == x;
            assert(torrents[j] == x);
        }
    }
}

/// Where the action is removal, exactly the torrents that have hit a limit leave the list, and
/// their files stay; the list is stored where any has left.
pub proof fn law_limits_remove(
    before: App,
    after: App,
    facts: Seq<TorrentFacts>,
    effects: Seq<Effect>,
    i: int,
)
    requires
        limits_checked(before, after, facts, effects),
        0 <= i < before.torrents@.len() == facts.len() <= usize::MAX,
        before.config.seed_ratio_action@ == "remove"@,
    ensures
        !acted_on(effects, i) ==> after.torrents@.contains(before.torrents@[i]),
        forall|x: ManagedTorrent| #[trigger]
            after.torrents@.contains(x) ==> exists|j: int|
                0 <= j < before.torrents@.len() && !acted_on(effects, j)
                    && #[trigger] before.torrents@[j] == x,
        acted_on(effects, i) ==> effects.last() == Effect::PersistTorrents,
        forall|k: int|
            0 <= k < effects.len() ==> match #[trigger] effects[k] {
                Effect::RemoveTorrent { index, delete_files, info_hash } => index
                    < before.torrents@.len() && !delete_files && info_hash
                    == before.torrents@[index as int].info_hash,
                Effect::PersistTorrents => k == effects.len() - 1,
                _ => false,
            },
{
    let torrents = before.torrents@;
    let due = choose|due: Seq<bool>| #[trigger]
        are_due(before, facts, due) && ({
            &&& forall|h: Seq<char>| #[trigger]
                after.seed_limit_acted.has(h) <==> (before.seed_limit_acted.has(h) || marked_hash(
                    torrents,
                    due,
                    due.len() as int,
                    h,
                ))
            &&& after == (App {
                torrents: after.torrents,
                seed_limit_acted: after.seed_limit_acted,
                ..before
            })
            &&& if before.config.seed_ratio_action@ == "remove"@ {
                let gone = removals(torrents, due, 0);
                &&& after.torrents@ == kept_from(torrents, due, 0)
                &&& effects == (if gone.len() > 0 {
                    gone.push(Effect::PersistTorrents)
                } else {
                    gone
                })
            } else {
                &&& after.torrents@ == torrents
                &&& effects == pauses(due, due.len() as int)
            }
        });
    let gone = removals(torrents, due, 0);
    assert forall|j: int| 0 <= j < torrents.len() implies #[trigger] acted_on(effects, j) == due[j] by {
        lemma_acted_on(before, after, facts, effects, j);
    }
    lemma_kept(torrents, due, 0, i);
    assert forall|x: ManagedTorrent| #[trigger] after.torrents@.contains(x) implies exists|j: int|
        0 <= j < torrents.len() && !acted_on(effects, j) && #[trigger] torrents[j] == x by {
        let j = choose|j: int| 0 <= j < torrents.len() && !due[j] && #[trigger] torrents[j] == x;
        assert(!acted_on(effects, j));
    }
    assert forall|k: int| 0 <= k < effects.len() implies match #[trigger] effects[k] {
        Effect::RemoveTorrent { index, delete_files, info_hash } => index < torrents.len()
            && !delete_files && info_hash == torrents[index as int].info_hash,
        Effect::PersistTorrents => k == effects.len() - 1,
        _ => false,
    } by {
        if k < gone.len() {
            assert(effects[k] == gone[k]);
            lemma_removals_name_hashes(torrents, due, 0, k);
        }
    }
}

/// A torrent that was acted on for a seed limit is not acted on again while it is noted.
pub proof fn law_seed_limit_acts_once(
    config: Config,
    acted: NameSet,
    torrent: ManagedTorrent,
    facts: TorrentFacts,
)
    requires
        acted.has(torrent.info_hash@),
    ensures
        !seed_due(config, acted, torrent, facts),
{
}

/// Without a limit no torrent is acted on.
pub proof fn law_no_limit_no_action(
    config: Config,
    acted: NameSet,
    torrent: ManagedTorrent,
    facts: TorrentFacts,
)
    requires
        config.seed_ratio_limit.rank() <= 0,
        config.seed_time_limit <= 0,
    ensures
        !seed_due(config, acted, torrent, facts),
{
}

// ----- content layouts -----

/// What the session reports of a torrent whose layout is to be applied.
#[derive(Debug, Clone, PartialEq, Eq)]
pub struct LayoutFacts {
    pub status: TorrentStatus,
    /// the paths of its files
    pub files: Vec<String>,
}

/// The torrent is still being checked, or its metadata is still being fetched.
pub open spec fn unsettled(state: Seq<char>) -> bool {
    state == "downloading_metadata"@ || state == "checking_files"@ || state
        == "checking_resume_data"@
}

/// The layout of the torrent can be applied now.
pub open spec fn layout_ready(torrent: ManagedTorrent, facts: LayoutFacts) -> bool {
    &&& torrent.pending_layout is Some
    &&& facts.status.has_metadata
    &&& !unsettled(facts.status.state@)
    &&& facts.files@.len() > 0
}

/// The renames that apply the layout of a torrent.
pub open spec fn pending_renames(torrent: ManagedTorrent, facts: LayoutFacts) -> Seq<
    (int, Seq<char>),
> {
    layout_renames(
        texts(facts.files@),
        match torrent.display_name {
            Some(name) => name@,
            None => facts.status.name@,
        },
        torrent.pending_layout->0,
    )
}

/// A rename of a file of the torrent at a position, as plain values.
pub open spec fn as_rename(e: Effect) -> Option<(int, int, Seq<char>)> {
    match e {
        Effect::RenameFile { index, file, path } => Some((index as int, file as int, path@)),
        _ => None,
    }
}

/// The renames of the torrent at a position.
pub open spec fn renames_at(index: int, renames: Seq<(int, Seq<char>)>) -> Seq<
    Option<(int, int, Seq<char>)>,
> {
    renames.map_values(|r: (int, Seq<char>)| Some((index, r.0, r.1)))
}

/// The renames that apply the layouts of the first `n` torrents.
pub open spec fn layout_work(
    torrents: Seq<ManagedTorrent>,
    facts: Seq<LayoutFacts>,
    n: int,
) -> Seq<Option<(int, int, Seq<char>)>>
    decreases n,
{
    if n <= 0 {
        Seq::empty()
    } else {
        let before = layout_work(torrents, facts, n - 1);
        if layout_ready(torrents[n - 1], facts[n - 1]) {
            before + renames_at(n - 1, pending_renames(torrents[n - 1], facts[n - 1]))
        } else {
            before
        }
    }
}

/// One of the first `n` torrents has its layout applied.
pub open spec fn any_ready(torrents: Seq<ManagedTorrent>, facts: Seq<LayoutFacts>, n: int) -> bool {
    exists|i: int| 0 <= i < n && layout_ready(#[trigger] torrents[i], facts[i])
}

/// The torrent with nothing left to be applied.
pub open spec fn laid_out(torrent: ManagedTorrent, facts: LayoutFacts) -> ManagedTorrent {
    if layout_ready(torrent, facts) {
        ManagedTorrent { pending_layout: None, ..torrent }
    } else {
        torrent
    }
}

/// The effects as plain values.
pub open spec fn rename_effects(effects: Seq<Effect>) -> Seq<Option<(int, int, Seq<char>)>> {
    effects.map_values(|e: Effect| as_rename(e))
}

impl App {
    /// Applies the layouts of torrents whose files are known and checked. Each is applied once.
    pub fn apply_pending_layouts(&mut self, facts: &Vec<LayoutFacts>) -> (r: Vec<Effect>)
        requires
            old(self).wf(),
            facts@.len() == old(self).torrents@.len(),
        ensures
            final(self).wf(),
            *final(self) == (App { torrents: final(self).torrents, ..*old(self) }),
            final(self).torrents@.len() == old(self).torrents@.len(),
            forall|i: int|
                0 <= i < facts@.len() ==> #[trigger] final(self).torrents@[i] == laid_out(
                    old(self).torrents@[i],
                    facts@[i],
                ),
            ({
                let n = facts@.len() as int;
                let work = layout_work(old(self).torrents@, facts@, n);
                if any_ready(old(self).torrents@, facts@, n) {
                    r@.len() > 0 && rename_effects(r@.drop_last()) == work && r@.last()
                        == Effect::PersistTorrents
                } else {
                    r@.len() == 0
                }
            }),
    {
        let ghost start = *self;
        let mut effects: Vec<Effect> = Vec::new();
        let mut changed = false;
        let mut i: usize = 0;
        assert(rename_effects(effects@) =~= Seq::<Option<(int, int, Seq<char>)>>::empty());
        while i < self.torrents.len()
            invariant
                i <= self.torrents@.len(),
                self.wf(),
                start.wf(),
                facts@.len() == start.torrents@.len(),
                self.torrents@.len() == start.torrents@.len(),
                *self == (App { torrents: self.torrents, ..start }),
                forall|j: int| i <= j < facts@.len() ==> self.torrents@[j] == start.torrents@[j],
                forall|j: int|
                    0 <= j < i ==> #[trigger] self.torrents@[j] == laid_out(
                        start.torrents@[j],
                        facts@[j],
                    ),
                changed == any_ready(start.torrents@, facts@, i as int),
                !changed ==> effects@.len() == 0,
                rename_effects(effects@) == layout_work(start.torrents@, facts@, i as int),
            decreases start.torrents@.len() - i,
        {
            let fact = &facts[i];
            let state = fact.status.state.as_str();
            let settled = fact.status.has_metadata && !same(state, "downloading_metadata") && !same(
                state,
                "checking_files",
            ) && !same(state, "checking_resume_data") && fact.files.len() > 0;
            let ghost ready = layout_ready(start.torrents@[i as int], facts@[i as int]);
            if let Some(layout) = self.torrents[i].pending_layout {
                if settled {
                    let name = match &self.torrents[i].display_name {
                        Some(name) => name.clone(),
                        None => fact.status.name.clone(),
                    };
                    let renames = compute_content_layout_renames(
                        fact.files.as_slice(),
                        name.as_str(),
                        layout,
                    );
                    let ghost prior = rename_effects(effects@);
                    let ghost list = rename_view(renames@);
                    let mut k: usize = 0;
                    assert(prior + renames_at(i as int, list.take(0)) =~= prior);
                    while k < renames.len()
                        invariant
                            k <= renames@.len(),
                            list == rename_view(renames@),
                            rename_effects(effects@) == prior + renames_at(
                                i as int,
                                list.take(k as int),
                            ),
                        decreases renames@.len() - k,
                    {
                        let ghost was = effects@;
                        let file: usize = renames[k].0;
                        let path = renames[k].1.clone();
                        effects.push(Effect::RenameFile { index: i, file, path });
                        proof {
                            assert(list[k as int] == (file as int, path@));
                            assert(rename_effects(effects@) =~= rename_effects(was).push(
                                Some((i as int, file as int, path@)),
                            ));
                            assert(renames_at(i as int, list.take(k as int + 1)) =~= renames_at(
                                i as int,
                                list.take(k as int),
                            ).push(Some((i as int, file as int, path@))));
                            assert(rename_effects(effects@) =~= prior + renames_at(
                                i as int,
                                list.take(k as int + 1),
                            ));
                        }
                        k = k + 1;
                    }
                    assert(list.take(list.len() as int) =~= list);
                    self.torrents[i].pending_layout = None;
                    changed = true;
                }
            }
            proof {
                assert(changed == any_ready(start.torrents@, facts@, i + 1)) by {
                    if any_ready(start.torrents@, facts@, i as int) {
                        let k = choose|k: int|
                            0 <= k < i && layout_ready(#[trigger] start.torrents@[k], facts@[k]);
                        assert(layout_ready(start.torrents@[k], facts@[k]));
                    }
                    if ready {
                        assert(layout_ready(start.torrents@[i as int], facts@[i as int]));
                    }
                }
            }
            i = i + 1;
        }
        if changed {
            let ghost was = effects@;
            effects.push(Effect::PersistTorrents);
            assert(effects@.drop_last() =~= was);
        }
        effects
    }
}

/// A layout that was applied is not applied again.
pub proof fn law_layout_is_applied_once(
    torrent: ManagedTorrent,
    facts: LayoutFacts,
    later: LayoutFacts,
)
    requires
        layout_ready(torrent, facts),
    ensures
        !layout_ready(laid_out(torrent, facts), later),
{
}

// ----- messages of the session -----

/// How loudly a message is logged.
#[derive(Debug, Clone, Copy, PartialEq, Eq, Structural)]
pub enum LogLevel {
    Debug,
    Info,
    Warn,
    Error,
}

/// What is done with a message of the session.
#[derive(Debug, Clone, Copy, PartialEq, Eq, Structural)]
pub enum AlertAction {
    /// a file was renamed: log it and save the resume data
    Renamed,
    /// a rename failed: log it
    RenameFailed,
    /// a torrent was moved: log it and save the resume data
    Moved,
    /// a move failed: log it
    MoveFailed,
    /// log it so loudly
    Log(LogLevel),
}

/// What is done with a message of that type and category.
pub open spec fn alert_action_of(alert_type: Seq<char>, category: Seq<char>) -> AlertAction {
    if alert_type == "file_renamed_alert"@ {
        AlertAction::Renamed
    } else if alert_type == "file_rename_failed_alert"@ {
        AlertAction::RenameFailed
    } else if alert_type == "storage_moved_alert"@ {
        AlertAction::Moved
    } else if alert_type == "storage_moved_failed_alert"@ {
        AlertAction::MoveFailed
    } else if category == "error"@ {
        AlertAction::Log(LogLevel::Error)
    } else if category == "status"@ {
        AlertAction::Log(LogLevel::Info)
    } else {
        AlertAction::Log(LogLevel::Debug)
    }
}

/// What is done with a message of the session.
pub fn alert_action(alert: &AlertInfo) -> (r: AlertAction)
    ensures
        r == alert_action_of(alert.alert_type@, alert.category@),
{
    let kind = alert.alert_type.as_str();
    if same(kind, "file_renamed_alert") {
        AlertAction::Renamed
    } else if same(kind, "file_rename_failed_alert") {
        AlertAction::RenameFailed
    } else if same(kind, "storage_moved_alert") {
        AlertAction::Moved
    } else if same(kind, "storage_moved_failed_alert") {
        AlertAction::MoveFailed
    } else if same(alert.category.as_str(), "error") {
        AlertAction::Log(LogLevel::Error)
    } else if same(alert.category.as_str(), "status") {
        AlertAction::Log(LogLevel::Info)
    } else {
        AlertAction::Log(LogLevel::Debug)
    }
}

// ----- feeds -----

/// The time between two polls of a feed, in milliseconds, as far as it can be told.
pub open spec fn poll_interval(minutes: u64) -> u64 {
    if minutes * 60000 > u64::MAX {
        u64::MAX
    } else {
        (minutes * 60000) as u64
    }
}

/// The time from `last` to `now`, none where `last` lies ahead.
pub open spec fn elapsed(last: u64, now: u64) -> int {
    if now >= last {
        now - last
    } else {
        0
    }
}

/// The poll of a feed is noted, and nothing else changes.
pub open spec fn poll_noted(before: App, after: App, url: Seq<char>, now: u64) -> bool {
    &&& after == (App { rss_last_polled: after.rss_last_polled, ..before })
    &&& after.rss_last_polled.has(url)
    &&& after.rss_last_polled.at(url) == now
    &&& crate::requests::same_polls_but(before, after, url)
}

/// A feed that was polled is due again once its interval has passed, and not before. Other feeds
/// are due as they were.
pub proof fn law_polled_feed_waits(
    before: App,
    after: App,
    url: Seq<char>,
    now: u64,
    minutes: u64,
    later: u64,
    other: Seq<char>,
)
    requires
        poll_noted(before, after, url, now),
        now <= later,
        other != url,
    ensures
        feed_due(after, url, minutes, later) <==> later - now >= poll_interval(minutes),
        feed_due(after, other, minutes, later) == feed_due(before, other, minutes, later),
{
}

/// The feed is due: no poll of it has succeeded yet, or its interval has passed since.
pub open spec fn feed_due(app: App, url: Seq<char>, minutes: u64, now: u64) -> bool {
    !app.rss_last_polled.has(url) || elapsed(app.rss_last_polled.at(url), now) >= poll_interval(
        minutes,
    )
}

impl App {
    /// Whether the feed at that position is due at the time `now`.
    pub fn feed_is_due(&self, index: usize, now: u64) -> (r: bool)
        requires
            self.wf(),
            index < self.rss_feeds.feeds@.len(),
        ensures
            r == feed_due(
                *self,
                self.rss_feeds.feeds@[index as int].url@,
                self.rss_feeds.feeds@[index as int].poll_interval_minutes,
                now,
            ),
    {
        let feed = &self.rss_feeds.feeds[index];
        let interval: u64 = match feed.poll_interval_minutes.checked_mul(60000) {
            Some(ms) => ms,
            None => u64::MAX,
        };
        match self.rss_last_polled.get(feed.url.as_str()) {
            None => true,
            Some(last) => now.saturating_sub(*last) >= interval,
        }
    }

    /// Notes that the feed at that position was polled at the time `now` with success. A poll
    /// that failed is not noted, and the feed stays due.
    pub fn note_poll(&mut self, index: usize, now: u64)
        requires
            old(self).wf(),
            index < old(self).rss_feeds.feeds@.len(),
        ensures
            final(self).wf(),
            poll_noted(*old(self), *final(self), old(self).rss_feeds.feeds@[index as int].url@, now),
    {
        let url = self.rss_feeds.feeds[index].url.clone();
        self.rss_last_polled.insert(url.as_str(), now);
    }

    /// The order to add an entry of the feed at that position.
    pub fn order_feed_item(&self, index: usize, uri: String) -> (order: AddOrder)
        requires
            self.wf(),
            index < self.rss_feeds.feeds@.len(),
        ensures
            is_order(
                order,
                *self,
                uri,
                self.rss_feeds.feeds@[index as int].save_path,
                self.rss_feeds.feeds@[index as int].category,
                self.rss_feeds.feeds@[index as int].start_paused,
                ContentLayout::Default,
            ),
    {
        let feed = &self.rss_feeds.feeds[index];
        let save_path = copy_text(&feed.save_path);
        let category = copy_text(&feed.category);
        let paused = feed.start_paused;
        self.order_add(uri, save_path, category, paused, ContentLayout::Default)
    }

    /// Notes that an entry of a feed was added.
    pub fn feed_item_added(&mut self, key: String)
        requires
            old(self).wf(),
        ensures
            final(self).wf(),
            *final(self) == (App { rss_seen: final(self).rss_seen, ..*old(self) }),
            forall|k: Seq<char>| #[trigger]
                final(self).rss_seen.seen.has(k) <==> (old(self).rss_seen.seen.has(k) || k
                    == key@),
    {
        self.rss_seen.insert(key);
    }
}

// ----- watched folders -----

/// A file of a watched folder that is to be added: a torrent file that is not marked as loaded.
pub open spec fn watch_wanted(name: Seq<char>) -> bool {
    has_suffix(name, ".torrent"@) && name.len() > ".torrent"@.len() && !occurs(name, ".loaded."@)
}

/// Whether a file of a watched folder is to be added, by its name.
pub fn watch_file_wanted(name: &str) -> (r: bool)
    ensures
        r == watch_wanted(name@),
{
    let n: usize = name.unicode_len();
    proof {
        reveal_strlit(".torrent");
    }
    ends_with(name, ".torrent") && n > 8 && !contains(name, ".loaded.")
}

impl App {
    /// Takes up a file that a scan has found, once: the order to add it.
    pub fn take_watch_file(&mut self, path: String) -> (r: Option<AddOrder>)
        requires
            old(self).wf(),
        ensures
            final(self).wf(),
            r is None <==> old(self).watch_dir_seen.has(path@),
            r is None ==> *final(self) == *old(self),
            r matches Some(order) ==> {
                &&& is_order(order, *old(self), path, None, None, false, ContentLayout::Default)
                &&& *final(self) == (App {
                    watch_dir_seen: final(self).watch_dir_seen,
                    ..*old(self)
                })
                &&& forall|p: Seq<char>| #[trigger]
                    final(self).watch_dir_seen.has(p) <==> (old(self).watch_dir_seen.has(p) || p
                        == path@)
            },
    {
        if !self.watch_dir_seen.insert(path.as_str()) {
            return None;
        }
        Some(self.order_add(path, None, None, false, ContentLayout::Default))
    }
}

// ----- what the chores come to -----

/// A stored torrent is added again from its magnet link where it has one, else from its torrent
/// file.
pub proof fn law_torrents_come_back_from_where_they_came(
    torrent: ManagedTorrent,
    record: TorrentRecord,
)
    requires
        is_record(record, torrent),
    ensures
        torrent.magnet_uri matches Some(link) ==> record_source_of(record) == Some(
            Source::Magnet(link),
        ),
        torrent.magnet_uri is None ==> (torrent.torrent_path matches Some(path)
            ==> record_source_of(record) == Some(Source::File(path))),
        torrent.magnet_uri is None && torrent.torrent_path is None ==> record_source_of(
            record,
        ) is None,
{
}

/// A stored torrent keeps where it lies, its category, its interface, its name and the layout
/// that it waits for.
pub proof fn law_what_comes_back(torrent: ManagedTorrent, record: TorrentRecord, hash: String)
    requires
        is_record(record, torrent),
    ensures
        ({
            let back = restored_torrent(record, hash);
            &&& back.info_hash == hash
            &&& back.save_path == torrent.save_path
            &&& back.category == torrent.category
            &&& back.interface_override == torrent.interface_override
            &&& back.display_name == torrent.display_name
            &&& back.pending_layout == torrent.pending_layout
            &&& back.magnet_uri == torrent.magnet_uri
            &&& back.torrent_path == torrent.torrent_path
            &&& !back.was_finished
            &&& forall|tag: Seq<char>| #[trigger] back.tags.has(tag) <==> torrent.tags.has(tag)
        }),
{
}

/// The layout of a torrent waits until its files are known and checked.
pub open spec fn layout_waits(facts: LayoutFacts) -> bool {
    ||| !facts.status.has_metadata
    ||| facts.files@.len() == 0
    ||| facts.status.state@ == "downloading_metadata"@
    ||| facts.status.state@ == "checking_files"@
    ||| facts.status.state@ == "checking_resume_data"@
}

/// The renames of a torrent are among those of all, and there are no others.
proof fn lemma_layout_work(
    torrents: Seq<ManagedTorrent>,
    facts: Seq<LayoutFacts>,
    n: int,
    index: int,
    file: int,
    path: Seq<char>,
)
    requires
        0 <= n <= torrents.len() == facts.len(),
        0 <= index < torrents.len(),
    ensures
        layout_work(torrents, facts, n).contains(Some((index, file, path))) <==> index < n
            && layout_ready(torrents[index], facts[index]) && pending_renames(
            torrents[index],
            facts[index],
        ).contains((file, path)),
    decreases n,
{
    if n > 0 {
        lemma_layout_work(torrents, facts, n - 1, index, file, path);
        let before = layout_work(torrents, facts, n - 1);
        let all = layout_work(torrents, facts, n);
        let item = Some((index, file, path));
        if layout_ready(torrents[n - 1], facts[n - 1]) {
            let list = pending_renames(torrents[n - 1], facts[n - 1]);
            let own = renames_at(n - 1, list);
            if all.contains(item) {
                let k = all.index_of(item);
                if k < before.len() {
                    assert(before[k] == item);
                } else {
                    assert(own[k - before.len()] == item);
                    assert(list[k - before.len()] == (file, path));
                }
            }
            if before.contains(item) {
                assert(all[before.index_of(item)] == item);
            }
            if index == n - 1 && list.contains((file, path)) {
                let k = list.index_of((file, path));
                assert(own[k] == item);
                assert(all[before.len() + k] == item);
            }
        }
    }
}

/// Each torrent that waits for a layout gets it once its files are known and checked: exactly
/// the renames that the layout takes, by the name that the torrent is shown by. It waits for none
/// then, and nothing else of it changes.
pub proof fn law_layouts_are_applied(
    torrents: Seq<ManagedTorrent>,
    facts: Seq<LayoutFacts>,
    index: int,
    file: int,
    path: Seq<char>,
)
    requires
        0 <= index < torrents.len() == facts.len(),
    ensures
        ({
            let t = torrents[index];
            let f = facts[index];
            let name = match t.display_name {
                Some(own) => own@,
                None => f.status.name@,
            };
            let now = t.pending_layout is Some && !layout_waits(f);
            &&& layout_work(torrents, facts, torrents.len() as int).contains(
                Some((index, file, path)),
            ) <==> now && layout_renames(texts(f.files@), name, t.pending_layout->0).contains(
                (file, path),
            )
            &&& now ==> laid_out(t, f).pending_layout is None
            &&& !now ==> laid_out(t, f).pending_layout == t.pending_layout
            &&& laid_out(t, f) == (ManagedTorrent {
                pending_layout: laid_out(t, f).pending_layout,
                ..t
            })
        }),
{
    lemma_layout_work(torrents, facts, torrents.len() as int, index, file, path);
}

/// After a file was renamed or a torrent was moved the resume data is saved; a rename or a move
/// that failed, and every other message, is only logged, errors loudest.
pub proof fn law_messages_are_told_apart(kind: Seq<char>, category: Seq<char>)
    ensures
        ({
            let act = alert_action_of(kind, category);
            let known = kind == "file_renamed_alert"@ || kind == "file_rename_failed_alert"@ || kind
                == "storage_moved_alert"@ || kind == "storage_moved_failed_alert"@;
            &&& act == AlertAction::Renamed <==> kind == "file_renamed_alert"@
            &&& act == AlertAction::RenameFailed <==> kind == "file_rename_failed_alert"@
            &&& act == AlertAction::Moved <==> kind == "storage_moved_alert"@
            &&& act == AlertAction::MoveFailed <==> kind == "storage_moved_failed_alert"@
            &&& act == AlertAction::Log(LogLevel::Error) <==> !known && category == "error"@
            &&& act == AlertAction::Log(LogLevel::Info) <==> !known && category == "status"@
            &&& act is Log <==> !known
        }),
{
    reveal_strlit("file_renamed_alert");
    reveal_strlit("file_rename_failed_alert");
    reveal_strlit("storage_moved_alert");
    reveal_strlit("storage_moved_failed_alert");
    reveal_strlit("error");
    reveal_strlit("status");
    assert("file_renamed_alert"@.len() == 18);
    assert("file_rename_failed_alert"@.len() == 24);
    assert("storage_moved_alert"@.len() == 19);
    assert("storage_moved_failed_alert"@.len() == 26);
    assert("error"@.len() == 5);
    assert("status"@.len() == 6);
}

/// A feed is polled every so many minutes: it is due that many minutes after a poll, and not a
/// millisecond before. One that was never polled is due.
pub proof fn law_polls_are_minutes_apart(app: App, url: Seq<char>, minutes: u64, now: u64)
    requires
        minutes * 60 * 1000 <= u64::MAX,
    ensures
        !app.rss_last_polled.has(url) ==> feed_due(app, url, minutes, now),
        app.rss_last_polled.has(url) ==> (feed_due(app, url, minutes, now) <==> now
            >= app.rss_last_polled.at(url) + minutes * 60 * 1000 || minutes == 0),
{
}

/// A torrent file is taken from a watched folder whatever its name, unless that says that it was
/// loaded already; nothing else is.
pub proof fn law_torrent_files_are_watched_for(stem: Seq<char>, ending: Seq<char>)
    requires
        stem.len() > 0,
    ensures
        watch_wanted(stem + ".torrent"@) <==> !occurs(stem + ".torrent"@, ".loaded."@),
        !has_suffix(stem + ending, ".torrent"@) ==> !watch_wanted(stem + ending),
        !watch_wanted(".torrent"@),
{
    let name = stem + ".torrent"@;
    assert(name.subrange(name.len() - ".torrent"@.len(), name.len() as int) =~= ".torrent"@);
}

} // verus!
