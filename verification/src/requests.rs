//! How the daemon answers each request.

use crate::binary64::Real64;
use crate::bridge::TorrentFile;
use crate::categories::{Category, TagRules};
use crate::config::{record_recent_path, recorded, Config};
use crate::config_keys::{
    find_setting, is_restart_key, needs_restart, ratio_view, set_refusal, set_value, setting_of,
    value_set, FlagKey, Setting,
};
use crate::ipc::{CategoryInfo, ContentLayout, FeedInfo, Response};
use crate::layout::rename_view;
use crate::names::{duplicate_list, NameSet};
use crate::rename::{
    check_rename_collision, collision, file_paths, folder_outcome, name_refusal, plan_folder_rename,
    validate_rename_name, FolderOutcome,
};
use crate::rss::RssFeed;
use crate::server::{
    bad_index, copy_text, done, no_torrent, refusal, refuses, replies, AddOrder, Answer, App,
    Effect, Handling, ManagedTorrent, MoveOrder, SaveFile, TorrentFacts,
};
use crate::sources::Source;
use crate::text::{
    concat2, decimal, decimal_u64, has_prefix, is_empty, opt_text, same, starts_with, texts, trim,
    trimmed,
};
use vstd::prelude::*;

verus! {

// ----- tagging -----

/// The rules give the torrent the tag.
pub open spec fn gains(rules: TagRules, facts: TorrentFacts, tag: Seq<char>) -> bool {
    rules.gives(
        rules.rules@.len() as int,
        tag,
        facts.status.name@,
        facts.status.total_wanted,
        texts(facts.trackers@),
    )
}

/// `after` is the torrent `before` with the tags that the rules give it added.
pub open spec fn retagged(
    before: ManagedTorrent,
    after: ManagedTorrent,
    rules: TagRules,
    facts: TorrentFacts,
) -> bool {
    &&& after == (ManagedTorrent { tags: after.tags, ..before })
    &&& after.tags.wf()
    &&& forall|tag: Seq<char>| #[trigger]
        after.tags.has(tag) <==> (before.tags.has(tag) || gains(rules, facts, tag))
}

/// How many of the first `n` torrents have more tags than before.
pub open spec fn grown(before: Seq<ManagedTorrent>, after: Seq<ManagedTorrent>, n: int) -> nat
    decreases n,
{
    if n <= 0 {
        0
    } else {
        grown(before, after, n - 1) + (if after[n - 1].tags.list().len()
            > before[n - 1].tags.list().len() {
            1nat
        } else {
            0nat
        })
    }
}

/// No more torrents have grown than there are, and what comes later does not count.
proof fn lemma_grown(
    before: Seq<ManagedTorrent>,
    after: Seq<ManagedTorrent>,
    other: Seq<ManagedTorrent>,
    n: int,
)
    requires
        0 <= n <= after.len(),
        n <= other.len(),
        forall|i: int| 0 <= i < n ==> after[i] == other[i],
    ensures
        grown(before, after, n) <= n,
        grown(before, after, n) == grown(before, other, n),
    decreases n,
{
    if n > 0 {
        lemma_grown(before, after, other, n - 1);
    }
}

impl App {
    /// Holds the rules against every torrent again; `rules` replaces the known ones, where
    /// given. Tags are only added. Tells how many torrents got a new tag.
    pub fn retag_all(&mut self, rules: Option<TagRules>, facts: &Vec<TorrentFacts>) -> (r: usize)
        requires
            old(self).wf(),
            facts@.len() == old(self).torrents@.len(),
        ensures
            final(self).wf(),
            final(self).tag_rules == (match rules {
                Some(fresh) => fresh,
                None => old(self).tag_rules,
            }),
            *final(self) == (App {
                tag_rules: final(self).tag_rules,
                torrents: final(self).torrents,
                ..*old(self)
            }),
            final(self).torrents@.len() == old(self).torrents@.len(),
            forall|i: int|
                0 <= i < facts@.len() ==> retagged(
                    old(self).torrents@[i],
                    #[trigger] final(self).torrents@[i],
                    final(self).tag_rules,
                    facts@[i],
                ),
            r == grown(old(self).torrents@, final(self).torrents@, facts@.len() as int),
    {
        if let Some(fresh) = rules {
            self.tag_rules = fresh;
        }
        let ghost start = *self;
        let mut updated: usize = 0;
        let mut i: usize = 0;
        while i < self.torrents.len()
            invariant
                i <= self.torrents@.len(),
                start.wf(),
                self.wf(),
                facts@.len() == start.torrents@.len(),
                self.torrents@.len() == start.torrents@.len(),
                *self == (App { torrents: self.torrents, ..start }),
                forall|j: int| i <= j < facts@.len() ==> self.torrents@[j] == start.torrents@[j],
                forall|j: int|
                    0 <= j < i ==> retagged(
                        start.torrents@[j],
                        #[trigger] self.torrents@[j],
                        start.tag_rules,
                        facts@[j],
                    ),
                updated == grown(start.torrents@, self.torrents@, i as int),
                updated <= i,
            decreases start.torrents@.len() - i,
        {
            let ghost before = self.torrents@;
            let fact = &facts[i];
            let tags = self.tag_rules.evaluate(
                fact.status.name.as_str(),
                fact.status.total_wanted,
                fact.trackers.as_slice(),
            );
            let old_len: usize = self.torrents[i].tags.len();
            self.torrents[i].tags.extend(&tags);
            let new_len: usize = self.torrents[i].tags.len();
            if new_len > old_len {
                updated = updated + 1;
            }
            proof {
                assert(self.torrents@ =~= before.update(i as int, self.torrents@[i as int]));
                lemma_grown(start.torrents@, before, self.torrents@, i as int);
                assert(retagged(
                    start.torrents@[i as int],
                    self.torrents@[i as int],
                    start.tag_rules,
                    facts@[i as int],
                )) by {
                    assert forall|tag: Seq<char>| #[trigger]
                        self.torrents@[i as int].tags.has(tag) <==> (
                        start.torrents@[i as int].tags.has(tag) || gains(
                            start.tag_rules,
                            facts@[i as int],
                            tag,
                        )) by {
                        assert(tags.has(tag) == gains(start.tag_rules, facts@[i as int], tag));
                    }
                }
                assert forall|j: int| 0 <= j < i + 1 implies retagged(
                    start.torrents@[j],
                    #[trigger] self.torrents@[j],
                    start.tag_rules,
                    facts@[j],
                ) by {
                    if j < i {
                        assert(self.torrents@[j] == before[j]);
                    }
                }
            }
            i = i + 1;
        }
        updated
    }
}

// ----- configuration -----

/// What a change of the configuration comes to.
pub open spec fn config_changed(
    before: App,
    after: App,
    key: Seq<char>,
    value: Seq<char>,
    ratio: Result<Real64, Seq<char>>,
    out: Handling,
) -> bool {
    match setting_of(key) {
        None => after == before && refuses(out, "unknown config key: "@ + key),
        Some(setting) => match set_refusal(setting, value, ratio) {
            Some(reason) => after == before && refuses(out, reason),
            None => {
                &&& value_set(before.config, after.config, setting, value, ratio)
                &&& after == (App { config: after.config, ..before })
                &&& out matches Handling::Reply(a)
                &&& a.save == Some(SaveFile::Config)
                &&& if setting == Setting::Flag(FlagKey::AutoResume) {
                    &&& a.effects@.len() == 0
                    &&& a.response matches Response::Failed(why)
                    &&& why@ == "auto_resume saved but only applies on daemon restart"@
                } else {
                    &&& a.effects@ == seq![Effect::ApplySettings]
                    &&& if needs_restart(key) {
                        &&& a.response matches Response::Failed(why)
                        &&& why@ == key + " saved but takes effect only on daemon restart"@
                    } else {
                        a.response == Response::Done
                    }
                }
            },
        },
    }
}

impl App {
    /// Sets one value of the configuration. Settings that need a restart are saved, and the
    /// answer says so.
    pub fn apply_config_change(
        &mut self,
        key: &str,
        value: &str,
        ratio: &Result<Real64, String>,
    ) -> (out: Handling)
        ensures
            config_changed(*old(self), *final(self), key@, value@, ratio_view(*ratio), out),
    {
        let setting = match find_setting(key) {
            Some(setting) => setting,
            None => {
                return refusal(concat2("unknown config key: ", key));
            },
        };
        if let Err(reason) = set_value(&mut self.config, setting, value, ratio) {
            return refusal(reason);
        }
        if setting == Setting::Flag(FlagKey::AutoResume) {
            return Handling::Reply(
                Answer {
                    effects: Vec::new(),
                    save: Some(SaveFile::Config),
                    response: Response::Failed(
                        "auto_resume saved but only applies on daemon restart".to_owned(),
                    ),
                },
            );
        }
        let mut effects: Vec<Effect> = Vec::new();
        effects.push(Effect::ApplySettings);
        assert(effects@ =~= seq![Effect::ApplySettings]);
        let response = if is_restart_key(key) {
            Response::Failed(concat2(key, " saved but takes effect only on daemon restart"))
        } else {
            Response::Done
        };
        Handling::Reply(Answer { effects, save: Some(SaveFile::Config), response })
    }
}

// ----- adding -----

/// Where a torrent goes: the given path, else the path of its category, else the default one.
pub open spec fn add_target(
    app: App,
    save_path: Option<Seq<char>>,
    category: Option<Seq<char>>,
) -> Seq<char> {
    match save_path {
        Some(path) => path,
        None => match category {
            Some(name) if app.categories.entries.has(name) => app.categories.entries.at(
                name,
            ).save_path@,
            _ => app.config.default_save_path@,
        },
    }
}

/// The tags that a torrent gets from its category, wherever it is stored.
pub open spec fn category_gives(app: App, category: Option<Seq<char>>, tag: Seq<char>) -> bool {
    &&& category matches Some(name)
    &&& app.categories.entries.has(name)
    &&& texts(app.categories.entries.at(name).add_tags@).contains(tag)
}

/// The order to add what a request names.
pub open spec fn is_order(
    order: AddOrder,
    app: App,
    uri: String,
    save_path: Option<String>,
    category: Option<String>,
    start_paused: bool,
    content_layout: ContentLayout,
) -> bool {
    &&& order == (AddOrder {
        uri,
        save_path,
        category,
        start_paused,
        content_layout,
        target: order.target,
        tags: order.tags,
    })
    &&& order.target@ == add_target(app, opt_text(save_path), opt_text(category))
    &&& order.tags.wf()
    &&& forall|tag: Seq<char>| #[trigger]
        order.tags.has(tag) <==> category_gives(app, opt_text(category), tag)
}

/// The layout that is left to be applied to a torrent that was just added.
pub open spec fn layout_left(layout: ContentLayout, setting: Seq<char>) -> Option<ContentLayout> {
    if layout.resolved(setting) == ContentLayout::IfMultiple {
        None
    } else {
        Some(layout.resolved(setting))
    }
}

/// What the session reports of a torrent that was just added.
#[derive(Debug, Clone, PartialEq, Eq)]
pub struct AddedFacts {
    pub info_hash: String,
    pub name: String,
    pub total_wanted: i64,
    pub trackers: Vec<String>,
    pub file_priorities: Vec<i32>,
}

/// The torrent that an order comes to.
pub open spec fn is_added(
    torrent: ManagedTorrent,
    app: App,
    order: AddOrder,
    source: Source,
    added: AddedFacts,
) -> bool {
    &&& torrent == (ManagedTorrent {
        magnet_uri: match source {
            Source::Magnet(link) => Some(link),
            Source::File(_) => None,
        },
        torrent_path: match source {
            Source::Magnet(_) => None,
            Source::File(path) => Some(path),
        },
        save_path: order.target,
        info_hash: added.info_hash,
        tags: torrent.tags,
        category: order.category,
        interface_override: None,
        display_name: None,
        was_finished: false,
        pending_layout: layout_left(order.content_layout, app.config.default_content_layout@),
    })
    &&& torrent.tags.wf()
    &&& forall|tag: Seq<char>| #[trigger]
        torrent.tags.has(tag) <==> (order.tags.has(tag) || app.tag_rules.gives(
            app.tag_rules.rules@.len() as int,
            tag,
            added.name@,
            added.total_wanted,
            texts(added.trackers@),
        ))
}

/// The effects that give each of the first `n` files that would be skipped the normal
/// priority.
pub open spec fn unskipped(index: usize, priorities: Seq<i32>, n: int) -> Seq<Effect>
    decreases n,
{
    if n <= 0 {
        Seq::empty()
    } else {
        let before = unskipped(index, priorities, n - 1);
        if priorities[n - 1] == 0 {
            before.push(Effect::SetPriority { index, file: (n - 1) as usize, priority: 4 })
        } else {
            before
        }
    }
}

/// What is done when a torrent starts paused. The files of a torrent file are known at once,
/// so none of them is left skipped and the user can choose among them.
pub open spec fn pause_effects(index: usize, source: Source, priorities: Seq<i32>) -> Seq<Effect> {
    seq![Effect::Pause { index }] + (match source {
        Source::File(_) => unskipped(index, priorities, priorities.len() as int),
        Source::Magnet(_) => Seq::empty(),
    })
}

/// What is done once a torrent was added at that position.
pub open spec fn add_effects(
    index: usize,
    order: AddOrder,
    source: Source,
    priorities: Seq<i32>,
) -> Seq<Effect> {
    (if order.start_paused {
        pause_effects(index, source, priorities)
    } else {
        Seq::empty()
    }) + seq![Effect::PersistTorrents] + (if order.save_path is Some {
        seq![Effect::SaveConfig]
    } else {
        Seq::empty()
    })
}

/// The configuration with a path noted as used.
pub open spec fn path_noted(before: Config, after: Config, path: Seq<char>) -> bool {
    &&& texts(after.recent_save_paths@) == recorded(
        texts(before.recent_save_paths@),
        path,
        before.recent_paths_limit as int,
    )
    &&& after == (Config { recent_save_paths: after.recent_save_paths, ..before })
}

/// What adding the source of an order comes to, once the session was asked.
pub open spec fn add_finished(
    before: App,
    after: App,
    order: AddOrder,
    source: Source,
    added: Result<AddedFacts, String>,
    out: Answer,
) -> bool {
    &&& out.save is None
    &&& match added {
        Err(reason) => after == before && out.effects@.len() == 0 && out.response
            == Response::Failed(reason),
        Ok(facts) => {
            let n = before.torrents@.len();
            &&& after.torrents@.len() == n + 1
            &&& after.torrents@.drop_last() == before.torrents@
            &&& is_added(after.torrents@.last(), before, order, source, facts)
            &&& match order.save_path {
                Some(path) => path_noted(before.config, after.config, path@),
                None => after.config == before.config,
            }
            &&& after == (App { torrents: after.torrents, config: after.config, ..before })
            &&& out.effects@ == add_effects(n as usize, order, source, facts.file_priorities@)
            &&& out.response == (Response::Added { id: facts.info_hash })
        },
    }
}

/// Notes a path as used.
fn note_path(config: &mut Config, path: &str)
    ensures
        path_noted(*old(config), *final(config), path@),
{
    let limit: u16 = config.recent_paths_limit;
    record_recent_path(&mut config.recent_save_paths, path, limit);
}

/// What is told when the torrent file is not there.
pub open spec fn missing_text(source: Source) -> Seq<char> {
    match source {
        Source::File(path) => "file not found: "@ + path@,
        Source::Magnet(link) => "file not found: "@ + link@,
    }
}

impl App {
    /// Where a torrent goes, and the tags that its category gives it.
    pub fn resolve_add_target(&self, save_path: Option<&str>, category: Option<&str>) -> (r: (
        String,
        NameSet,
    ))
        requires
            self.wf(),
        ensures
            r.0@ == add_target(
                *self,
                crate::text::opt_str(save_path),
                crate::text::opt_str(category),
            ),
            r.1.wf(),
            forall|tag: Seq<char>| #[trigger]
                r.1.has(tag) <==> category_gives(*self, crate::text::opt_str(category), tag),
    {
        let mut tags = NameSet::new();
        let mut folder = self.config.default_save_path.clone();
        if let Some(name) = category {
            if let Some(definition) = self.categories.get(name) {
                tags.extend_list(&definition.add_tags);
                folder = definition.save_path.clone();
            }
        }
        if let Some(path) = save_path {
            folder = path.to_owned();
        }
        (folder, tags)
    }

    /// The order to add a source.
    pub fn order_add(
        &self,
        uri: String,
        save_path: Option<String>,
        category: Option<String>,
        start_paused: bool,
        content_layout: ContentLayout,
    ) -> (order: AddOrder)
        requires
            self.wf(),
        ensures
            is_order(order, *self, uri, save_path, category, start_paused, content_layout),
    {
        let path = match &save_path {
            Some(p) => Some(p.as_str()),
            None => None,
        };
        let group = match &category {
            Some(c) => Some(c.as_str()),
            None => None,
        };
        let (target, tags) = self.resolve_add_target(path, group);
        AddOrder { uri, save_path, category, start_paused, content_layout, target, tags }
    }

    /// Answers once the session was asked to add the source of an order. The path that the
    /// user gave is noted as used.
    pub fn finish_add(
        &mut self,
        order: AddOrder,
        source: Source,
        added: Result<AddedFacts, String>,
    ) -> (out: Answer)
        requires
            old(self).wf(),
            order.tags.wf(),
        ensures
            final(self).wf(),
            add_finished(*old(self), *final(self), order, source, added, out),
    {
        let facts = match added {
            Ok(facts) => facts,
            Err(reason) => {
                return Answer {
                    effects: Vec::new(),
                    save: None,
                    response: Response::Failed(reason),
                };
            },
        };
        let ghost before = *self;
        let index: usize = self.torrents.len();
        let mut effects: Vec<Effect> = Vec::new();
        if order.start_paused {
            effects.push(Effect::Pause { index });
            assert(effects@ =~= seq![Effect::Pause { index }]);
            if let Source::File(_) = &source {
                let mut i: usize = 0;
                assert(effects@ =~= seq![Effect::Pause { index }] + unskipped(
                    index,
                    facts.file_priorities@,
                    0,
                ));
                while i < facts.file_priorities.len()
                    invariant
                        i <= facts.file_priorities@.len(),
                        effects@ == seq![Effect::Pause { index }] + unskipped(
                            index,
                            facts.file_priorities@,
                            i as int,
                        ),
                    decreases facts.file_priorities@.len() - i,
                {
                    if facts.file_priorities[i] == 0 {
                        effects.push(Effect::SetPriority { index, file: i, priority: 4 });
                    }
                    assert(effects@ =~= seq![Effect::Pause { index }] + unskipped(
                        index,
                        facts.file_priorities@,
                        i + 1,
                    ));
                    i = i + 1;
                }
            }
            assert(effects@ =~= pause_effects(index, source, facts.file_priorities@));
        }
        effects.push(Effect::PersistTorrents);
        if order.save_path.is_some() {
            effects.push(Effect::SaveConfig);
        }
        assert(effects@ =~= add_effects(index, order, source, facts.file_priorities@));
        let auto = self.tag_rules.evaluate(
            facts.name.as_str(),
            facts.total_wanted,
            facts.trackers.as_slice(),
        );
        let mut tags = order.tags;
        tags.extend(&auto);
        let resolved = order.content_layout.resolve(self.config.default_content_layout.as_str());
        let pending_layout = match resolved {
            ContentLayout::IfMultiple => None,
            other => Some(other),
        };
        let (magnet_uri, torrent_path) = match source {
            Source::Magnet(link) => (Some(link), None),
            Source::File(path) => (None, Some(path)),
        };
        let id = facts.info_hash.clone();
        let torrent = ManagedTorrent {
            magnet_uri,
            torrent_path,
            save_path: order.target,
            info_hash: facts.info_hash,
            tags,
            category: order.category,
            interface_override: None,
            display_name: None,
            was_finished: false,
            pending_layout,
        };
        self.torrents.push(torrent);
        if let Some(path) = &order.save_path {
            note_path(&mut self.config, path.as_str());
        }
        proof {
            assert(self.torrents@.drop_last() =~= before.torrents@);
            assert(self.torrents@.last() == torrent);
            assert forall|i: int| 0 <= i < self.torrents@.len() implies (#[trigger] self.torrents@[i]).tags.wf() by {
                if i < before.torrents@.len() {
                    assert(self.torrents@[i] == before.torrents@[i]);
                }
            }
        }
        Answer { effects, save: None, response: Response::Added { id } }
    }

    /// Answers a request to add a torrent file that is not there.
    pub fn missing_source(&self, source: &Source) -> (out: Answer)
        ensures
            out.effects@.len() == 0,
            out.save is None,
            out.response matches Response::Failed(why) && why@ == missing_text(*source),
    {
        let what = match source {
            Source::File(path) => path.as_str(),
            Source::Magnet(link) => link.as_str(),
        };
        Answer {
            effects: Vec::new(),
            save: None,
            response: Response::Failed(concat2("file not found: ", what)),
        }
    }
}

// ----- removing and moving -----

/// What removing the torrent at that position comes to.
pub open spec fn removed(
    before: App,
    after: App,
    index: usize,
    delete_files: bool,
    out: Handling,
) -> bool {
    if index < before.torrents@.len() {
        &&& after == (App { torrents: after.torrents, ..before })
        &&& after.torrents@ == before.torrents@.remove(index as int)
        &&& replies(
            out,
            seq![
                Effect::RemoveTorrent {
                    index,
                    delete_files,
                    info_hash: before.torrents@[index as int].info_hash,
                },
                Effect::PersistTorrents,
            ],
            None,
            Response::Done,
        )
    } else {
        after == before && refuses(out, bad_index(index))
    }
}

/// What a request to move a torrent comes to before the folder is made.
pub open spec fn move_started(app: App, index: usize, path: Seq<char>, out: Handling) -> bool {
    let bare = trim(path);
    if bare.len() == 0 {
        refuses(out, "save path cannot be empty"@)
    } else if !has_prefix(bare, "/"@) {
        refuses(out, "save path must be absolute, not relative"@)
    } else if index >= app.torrents@.len() {
        refuses(out, bad_index(index))
    } else {
        out matches Handling::Move(order) && order.index == index && order.path@ == bare
    }
}

/// What moving a torrent comes to, once the folder was made.
pub open spec fn move_finished(
    before: App,
    after: App,
    order: MoveOrder,
    made: Result<(), String>,
    same_place: bool,
    out: Answer,
) -> bool {
    &&& out.save is None
    &&& match made {
        Err(reason) => {
            &&& after == before
            &&& out.effects@.len() == 0
            &&& out.response matches Response::Failed(why)
            &&& why@ == "create target directory: "@ + reason@
        },
        Ok(_) => {
            let i = order.index as int;
            &&& out.response == Response::Done
            &&& if same_place {
                after == before && out.effects@.len() == 0
            } else {
                &&& after.torrents@ == before.torrents@.update(
                    i,
                    ManagedTorrent { save_path: order.path, ..before.torrents@[i] },
                )
                &&& path_noted(before.config, after.config, order.path@)
                &&& after == (App { torrents: after.torrents, config: after.config, ..before })
                &&& out.effects@ == seq![
                    Effect::MoveStorage { index: order.index, path: order.path },
                    Effect::PersistTorrents,
                    Effect::SaveConfig,
                ]
            }
        },
    }
}

impl App {
    /// Takes a torrent out of the list.
    pub fn remove(&mut self, index: usize, delete_files: bool) -> (out: Handling)
        requires
            old(self).wf(),
        ensures
            final(self).wf(),
            removed(*old(self), *final(self), index, delete_files, out),
    {
        if index >= self.torrents.len() {
            return no_torrent(index);
        }
        let ghost before = self.torrents@;
        let torrent = self.torrents.remove(index);
        let mut effects: Vec<Effect> = Vec::new();
        effects.push(Effect::RemoveTorrent { index, delete_files, info_hash: torrent.info_hash });
        effects.push(Effect::PersistTorrents);
        proof {
            assert(effects@ =~= seq![
                Effect::RemoveTorrent { index, delete_files, info_hash: torrent.info_hash },
                Effect::PersistTorrents,
            ]);
            assert(self.torrents@ =~= before.remove(index as int));
            assert forall|i: int| 0 <= i < self.torrents@.len() implies (#[trigger] self.torrents@[i]).tags.wf() by {
                let k = if i < index { i } else { i + 1 };
                assert(self.torrents@[i] == before[k]);
            }
        }
        done(effects)
    }

    /// Checks where a torrent is to be moved.
    pub fn move_storage(&self, index: usize, new_save_path: &str) -> (out: Handling)
        ensures
            move_started(*self, index, new_save_path@, out),
    {
        let path = trimmed(new_save_path);
        if is_empty(path.as_str()) {
            return refusal("save path cannot be empty".to_owned());
        }
        if !starts_with(path.as_str(), "/") {
            return refusal("save path must be absolute, not relative".to_owned());
        }
        if index >= self.torrents.len() {
            return no_torrent(index);
        }
        Handling::Move(MoveOrder { index, path })
    }

    /// Answers once the folder was made. `same_place` tells whether the torrent lies there
    /// already, under another name of the same folder; then nothing is moved. The path is
    /// noted as used.
    pub fn finish_move(
        &mut self,
        order: MoveOrder,
        made: Result<(), String>,
        same_place: bool,
    ) -> (out: Answer)
        requires
            old(self).wf(),
            order.index < old(self).torrents@.len(),
        ensures
            final(self).wf(),
            move_finished(*old(self), *final(self), order, made, same_place, out),
    {
        if let Err(reason) = made {
            return Answer {
                effects: Vec::new(),
                save: None,
                response: Response::Failed(concat2("create target directory: ", reason.as_str())),
            };
        }
        let mut effects: Vec<Effect> = Vec::new();
        if same_place {
            return Answer { effects, save: None, response: Response::Done };
        }
        let ghost before = self.torrents@;
        let index: usize = order.index;
        note_path(&mut self.config, order.path.as_str());
        self.torrents[index].save_path = order.path.clone();
        effects.push(Effect::MoveStorage { index, path: order.path });
        effects.push(Effect::PersistTorrents);
        effects.push(Effect::SaveConfig);
        proof {
            assert(effects@ =~= seq![
                Effect::MoveStorage { index, path: order.path },
                Effect::PersistTorrents,
                Effect::SaveConfig,
            ]);
            assert(self.torrents@ =~= before.update(
                index as int,
                ManagedTorrent { save_path: order.path, ..before[index as int] },
            ));
        }
        Answer { effects, save: None, response: Response::Done }
    }
}

// ----- files -----

/// What a request to give a file a priority comes to.
pub open spec fn priority_set(
    app: App,
    index: usize,
    file_index: usize,
    priority: u8,
    files: Seq<TorrentFile>,
    out: Handling,
) -> bool {
    if priority > 7 {
        refuses(out, "priority must be 0..=7"@)
    } else if index >= app.torrents@.len() {
        refuses(out, bad_index(index))
    } else if file_index >= files.len() {
        refuses(out, "invalid file index: "@ + decimal(file_index as int))
    } else {
        replies(
            out,
            seq![Effect::SetPriority { index, file: file_index, priority }],
            None,
            Response::Done,
        )
    }
}

/// How many priorities come before the first that is out of range.
pub open spec fn in_range(priorities: Seq<(usize, u8)>) -> int
    decreases priorities.len(),
{
    if priorities.len() == 0 || priorities[0].1 > 7 {
        0
    } else {
        1 + in_range(priorities.skip(1))
    }
}

/// The effects that set the priorities.
pub open spec fn priority_effects(index: usize, priorities: Seq<(usize, u8)>) -> Seq<Effect> {
    priorities.map_values(
        |p: (usize, u8)| Effect::SetPriority { index, file: p.0, priority: p.1 },
    )
}

/// What a request to give many files their priorities comes to. Those before the first that is
/// out of range are set.
pub open spec fn priorities_set(
    app: App,
    index: usize,
    priorities: Seq<(usize, u8)>,
    out: Handling,
) -> bool {
    if index >= app.torrents@.len() {
        refuses(out, bad_index(index))
    } else {
        let n = in_range(priorities);
        &&& out matches Handling::Reply(a)
        &&& a.save is None
        &&& a.effects@ == priority_effects(index, priorities.take(n))
        &&& if n < priorities.len() {
            &&& a.response matches Response::Failed(why)
            &&& why@ == "priority must be 0..=7, got "@ + decimal(priorities[n].1 as int)
        } else {
            a.response == Response::Done
        }
    }
}

/// The number of priorities before the first that is out of range lies among them.
proof fn lemma_in_range(priorities: Seq<(usize, u8)>, k: int)
    requires
        0 <= k <= priorities.len(),
        forall|j: int| 0 <= j < k ==> (#[trigger] priorities[j]).1 <= 7,
        k < priorities.len() ==> priorities[k].1 > 7,
    ensures
        in_range(priorities) == k,
    decreases priorities.len(),
{
    if priorities.len() > 0 && k > 0 {
        assert(priorities[0].1 <= 7);
        let rest = priorities.skip(1);
        assert forall|j: int| 0 <= j < k - 1 implies (#[trigger] rest[j]).1 <= 7 by {
            assert(rest[j] == priorities[j + 1]);
        }
        lemma_in_range(rest, k - 1);
    }
}

/// Where all priorities are in range, they all come before the first that is not.
pub proof fn lemma_range_is_valid(priorities: Seq<(usize, u8)>)
    requires
        forall|j: int| 0 <= j < priorities.len() ==> (#[trigger] priorities[j]).1 <= 7,
    ensures
        in_range(priorities) == priorities.len(),
{
    lemma_in_range(priorities, priorities.len() as int);
}

/// What a request to rename a file comes to.
pub open spec fn file_renamed(
    app: App,
    index: usize,
    file_index: usize,
    new_name: Seq<char>,
    files: Seq<TorrentFile>,
    out: Handling,
) -> bool {
    if index >= app.torrents@.len() {
        refuses(out, bad_index(index))
    } else if name_refusal(new_name) is Some {
        refuses(out, name_refusal(new_name)->0)
    } else if file_index >= files.len() {
        refuses(out, "invalid file index: "@ + decimal(file_index as int))
    } else {
        match collision(file_paths(files), file_index as int, new_name, files.len() as int) {
            Some(reason) => refuses(out, reason),
            None => {
                &&& out matches Handling::Reply(a)
                &&& a.save is None
                &&& a.response == Response::Done
                &&& a.effects@.len() == 1
                &&& a.effects@[0] matches Effect::RenameFile { index: i, file, path }
                &&& i == index && file == file_index && path@ == new_name
            },
        }
    }
}

/// The effects are the renames of the files of that torrent.
pub open spec fn are_renames(
    effects: Seq<Effect>,
    index: usize,
    renames: Seq<(int, Seq<char>)>,
) -> bool {
    &&& effects.len() == renames.len()
    &&& forall|i: int|
        0 <= i < renames.len() ==> {
            &&& (#[trigger] effects[i]) matches Effect::RenameFile { index: t, file, path }
            &&& t == index && file == renames[i].0 && path@ == renames[i].1
        }
}

/// What a request to rename a folder comes to. Either every file in it is renamed, or none.
pub open spec fn folder_renamed(
    app: App,
    index: usize,
    old_prefix: Seq<char>,
    new_prefix: Seq<char>,
    files: Seq<TorrentFile>,
    out: Handling,
) -> bool {
    if index >= app.torrents@.len() {
        refuses(out, bad_index(index))
    } else {
        match folder_outcome(file_paths(files), old_prefix, new_prefix) {
            FolderOutcome::Refused(reason) => refuses(out, reason),
            FolderOutcome::Rejected(list) => {
                &&& out matches Handling::Reply(a)
                &&& a.save is None
                &&& a.effects@.len() == 0
                &&& a.response matches Response::RenameResult { renamed, rejected }
                &&& renamed@.len() == 0 && rename_view(rejected@) == list
            },
            FolderOutcome::Renames(list) => {
                &&& out matches Handling::Reply(a)
                &&& a.save is None
                &&& are_renames(a.effects@, index, list)
                &&& a.response matches Response::RenameResult { renamed, rejected }
                &&& rejected@.len() == 0
                &&& renamed@.len() == list.len()
                &&& forall|i: int| 0 <= i < list.len() ==> #[trigger] renamed@[i] == list[i].0
            },
        }
    }
}

impl App {
    /// Gives a file a priority.
    pub fn set_file_priority(
        &self,
        index: usize,
        file_index: usize,
        priority: u8,
        files: &Vec<TorrentFile>,
    ) -> (out: Handling)
        ensures
            priority_set(*self, index, file_index, priority, files@, out),
    {
        if priority > 7 {
            return refusal("priority must be 0..=7".to_owned());
        }
        if index >= self.torrents.len() {
            return no_torrent(index);
        }
        if file_index >= files.len() {
            let number = decimal_u64(file_index as u64);
            return refusal(concat2("invalid file index: ", number.as_str()));
        }
        let mut effects: Vec<Effect> = Vec::new();
        effects.push(Effect::SetPriority { index, file: file_index, priority });
        assert(effects@ =~= seq![Effect::SetPriority { index, file: file_index, priority }]);
        done(effects)
    }

    /// Gives many files their priorities.
    pub fn set_file_priorities(&self, index: usize, priorities: &Vec<(usize, u8)>) -> (out:
        Handling)
        ensures
            priorities_set(*self, index, priorities@, out),
    {
        if index >= self.torrents.len() {
            return no_torrent(index);
        }
        let mut effects: Vec<Effect> = Vec::new();
        let mut i: usize = 0;
        assert(effects@ =~= priority_effects(index, priorities@.take(0)));
        while i < priorities.len()
            invariant
                i <= priorities@.len(),
                index < self.torrents@.len(),
                forall|j: int| 0 <= j < i ==> (#[trigger] priorities@[j]).1 <= 7,
                effects@ == priority_effects(index, priorities@.take(i as int)),
            decreases priorities@.len() - i,
        {
            let (file, priority) = priorities[i];
            if priority > 7 {
                proof {
                    lemma_in_range(priorities@, i as int);
                }
                let number = decimal_u64(priority as u64);
                return Handling::Reply(
                    Answer {
                        effects,
                        save: None,
                        response: Response::Failed(
                            concat2("priority must be 0..=7, got ", number.as_str()),
                        ),
                    },
                );
            }
            effects.push(Effect::SetPriority { index, file, priority });
            assert(effects@ =~= priority_effects(index, priorities@.take(i as int + 1)));
            i = i + 1;
        }
        proof {
            lemma_in_range(priorities@, priorities@.len() as int);
        }
        done(effects)
    }

    /// Renames a file.
    pub fn rename_file(
        &self,
        index: usize,
        file_index: usize,
        new_name: &str,
        files: &Vec<TorrentFile>,
    ) -> (out: Handling)
        ensures
            file_renamed(*self, index, file_index, new_name@, files@, out),
    {
        if index >= self.torrents.len() {
            return no_torrent(index);
        }
        if let Err(reason) = validate_rename_name(new_name) {
            return refusal(reason);
        }
        if file_index >= files.len() {
            let number = decimal_u64(file_index as u64);
            return refusal(concat2("invalid file index: ", number.as_str()));
        }
        if let Err(reason) = check_rename_collision(files.as_slice(), file_index, new_name) {
            return refusal(reason);
        }
        let mut effects: Vec<Effect> = Vec::new();
        effects.push(Effect::RenameFile { index, file: file_index, path: new_name.to_owned() });
        done(effects)
    }

    /// Renames a folder.
    pub fn rename_folder(
        &self,
        index: usize,
        old_prefix: &str,
        new_prefix: &str,
        files: &Vec<TorrentFile>,
    ) -> (out: Handling)
        ensures
            folder_renamed(*self, index, old_prefix@, new_prefix@, files@, out),
    {
        if index >= self.torrents.len() {
            return no_torrent(index);
        }
        let plan = match plan_folder_rename(files.as_slice(), old_prefix, new_prefix) {
            Ok(plan) => plan,
            Err(reason) => {
                return refusal(reason);
            },
        };
        let mut effects: Vec<Effect> = Vec::new();
        let mut renamed: Vec<usize> = Vec::new();
        let ghost list = rename_view(plan.renames@);
        let mut i: usize = 0;
        while i < plan.renames.len()
            invariant
                i <= plan.renames@.len(),
                list == rename_view(plan.renames@),
                are_renames(effects@, index, list.take(i as int)),
                renamed@.len() == i,
                forall|j: int| 0 <= j < i ==> #[trigger] renamed@[j] == list[j].0,
            decreases plan.renames@.len() - i,
        {
            let file: usize = plan.renames[i].0;
            let path = plan.renames[i].1.clone();
            assert(list[i as int] == (file as int, path@));
            effects.push(Effect::RenameFile { index, file, path });
            renamed.push(file);
            proof {
                let next = list.take(i as int + 1);
                assert forall|j: int| 0 <= j < next.len() implies {
                    &&& (#[trigger] effects@[j]) matches Effect::RenameFile { index: t, file, path }
                    &&& t == index && file == next[j].0 && path@ == next[j].1
                } by {
                    if j < i {
                        assert(next[j] == list.take(i as int)[j]);
                    }
                }
            }
            i = i + 1;
        }
        assert(list.take(list.len() as int) =~= list);
        Handling::Reply(
            Answer {
                effects,
                save: None,
                response: Response::RenameResult { renamed, rejected: plan.rejected },
            },
        )
    }
}

// ----- categories -----

/// How many of the first `n` torrents are in the category.
pub open spec fn members(torrents: Seq<ManagedTorrent>, name: Seq<char>, n: int) -> nat
    decreases n,
{
    if n <= 0 {
        0
    } else {
        members(torrents, name, n - 1) + (if opt_text(torrents[n - 1].category) == Some(name) {
            1nat
        } else {
            0nat
        })
    }
}

/// What is told of the categories.
pub open spec fn is_category_list(list: Seq<CategoryInfo>, app: App) -> bool {
    let entries = app.categories.entries;
    &&& list.len() == entries.keys@.len()
    &&& forall|i: int|
        0 <= i < list.len() ==> {
            &&& (#[trigger] list[i]).name == entries.keys@[i]
            &&& list[i].save_path == entries.values@[i].save_path
            &&& texts(list[i].add_tags@) == texts(entries.values@[i].add_tags@)
            &&& list[i].torrent_count == members(
                app.torrents@,
                entries.keys@[i]@,
                app.torrents@.len() as int,
            )
        }
}

/// What defining a category comes to.
pub open spec fn category_defined(
    before: App,
    after: App,
    name: Seq<char>,
    definition: Category,
    out: Handling,
) -> bool {
    if trim(name).len() == 0 {
        after == before && refuses(out, "category name cannot be empty"@)
    } else {
        &&& after == (App { categories: after.categories, ..before })
        &&& after.categories.entries.has(name)
        &&& after.categories.entries.at(name) == definition
        &&& forall|k: Seq<char>|
            k != name ==> (#[trigger] after.categories.entries.has(k)
                <==> before.categories.entries.has(k))
        &&& forall|k: Seq<char>|
            k != name && #[trigger] before.categories.entries.has(k)
                ==> after.categories.entries.at(k) == before.categories.entries.at(k)
        &&& replies(out, Seq::empty(), Some(SaveFile::Categories), Response::Done)
    }
}

/// The torrent without the category of that name.
pub open spec fn uncategorised(torrent: ManagedTorrent, name: Seq<char>) -> ManagedTorrent {
    if opt_text(torrent.category) == Some(name) {
        ManagedTorrent { category: None, ..torrent }
    } else {
        torrent
    }
}

/// What removing a category comes to: no torrent stays in it.
pub open spec fn category_removed(before: App, after: App, name: Seq<char>, out: Handling) -> bool {
    if !before.categories.entries.has(name) {
        after == before && refuses(out, "unknown category: "@ + name)
    } else {
        &&& after == (App { categories: after.categories, torrents: after.torrents, ..before })
        &&& !after.categories.entries.has(name)
        &&& forall|k: Seq<char>|
            k != name ==> (#[trigger] after.categories.entries.has(k)
                <==> before.categories.entries.has(k))
        &&& forall|k: Seq<char>|
            k != name && #[trigger] before.categories.entries.has(k)
                ==> after.categories.entries.at(k) == before.categories.entries.at(k)
        &&& after.torrents@ == before.torrents@.map_values(
            |t: ManagedTorrent| uncategorised(t, name),
        )
        &&& replies(
            out,
            seq![Effect::PersistTorrents],
            Some(SaveFile::Categories),
            Response::Done,
        )
    }
}

/// What changing one torrent comes to: its new value, the effects, and the list is stored.
pub open spec fn torrent_changed(
    before: App,
    after: App,
    index: usize,
    changed: ManagedTorrent,
    effects: Seq<Effect>,
    out: Handling,
) -> bool {
    if index < before.torrents@.len() {
        &&& after == (App { torrents: after.torrents, ..before })
        &&& after.torrents@ == before.torrents@.update(index as int, changed)
        &&& replies(out, effects.push(Effect::PersistTorrents), None, Response::Done)
    } else {
        after == before && refuses(out, bad_index(index))
    }
}

/// The answer that the list of torrents is to be stored.
pub(crate) fn stored() -> (out: Handling)
    ensures
        replies(out, Seq::<Effect>::empty().push(Effect::PersistTorrents), None, Response::Done),
{
    let mut effects: Vec<Effect> = Vec::new();
    effects.push(Effect::PersistTorrents);
    assert(effects@ =~= Seq::<Effect>::empty().push(Effect::PersistTorrents));
    done(effects)
}

impl App {
    /// How many torrents are in the category.
    fn count_members(&self, name: &str) -> (r: usize)
        ensures
            r == members(self.torrents@, name@, self.torrents@.len() as int),
    {
        let mut count: usize = 0;
        let mut i: usize = 0;
        while i < self.torrents.len()
            invariant
                i <= self.torrents@.len(),
                count == members(self.torrents@, name@, i as int),
                count <= i,
            decreases self.torrents@.len() - i,
        {
            if let Some(own) = &self.torrents[i].category {
                if same(own.as_str(), name) {
                    count = count + 1;
                }
            }
            i = i + 1;
        }
        count
    }

    /// What is told of the categories.
    pub fn list_categories(&self) -> (r: Vec<CategoryInfo>)
        requires
            self.wf(),
        ensures
            is_category_list(r@, *self),
    {
        let mut out: Vec<CategoryInfo> = Vec::new();
        let mut i: usize = 0;
        let entries = &self.categories.entries;
        while i < entries.keys.len()
            invariant
                i <= entries.keys@.len(),
                entries == self.categories.entries,
                entries.wf(),
                out@.len() == i,
                forall|j: int|
                    0 <= j < i ==> {
                        &&& (#[trigger] out@[j]).name == entries.keys@[j]
                        &&& out@[j].save_path == entries.values@[j].save_path
                        &&& texts(out@[j].add_tags@) == texts(entries.values@[j].add_tags@)
                        &&& out@[j].torrent_count == members(
                            self.torrents@,
                            entries.keys@[j]@,
                            self.torrents@.len() as int,
                        )
                    },
            decreases entries.keys@.len() - i,
        {
            let count: usize = self.count_members(entries.keys[i].as_str());
            out.push(
                CategoryInfo {
                    name: entries.keys[i].clone(),
                    save_path: entries.values[i].save_path.clone(),
                    add_tags: duplicate_list(&entries.values[i].add_tags),
                    torrent_count: count,
                },
            );
            i = i + 1;
        }
        out
    }

    /// Defines a category, or defines it anew.
    pub fn define_category(&mut self, name: String, definition: Category) -> (out: Handling)
        requires
            old(self).wf(),
        ensures
            final(self).wf(),
            category_defined(*old(self), *final(self), name@, definition, out),
    {
        let bare = trimmed(name.as_str());
        if is_empty(bare.as_str()) {
            return refusal("category name cannot be empty".to_owned());
        }
        self.categories.entries.insert(name.as_str(), definition);
        let effects: Vec<Effect> = Vec::new();
        assert(effects@ =~= Seq::<Effect>::empty());
        Handling::Reply(
            Answer { effects, save: Some(SaveFile::Categories), response: Response::Done },
        )
    }

    /// Removes a category; the torrents in it are in none then.
    pub fn remove_category(&mut self, name: &str) -> (out: Handling)
        requires
            old(self).wf(),
        ensures
            final(self).wf(),
            category_removed(*old(self), *final(self), name@, out),
    {
        if !self.categories.entries.remove(name) {
            return refusal(concat2("unknown category: ", name));
        }
        let ghost start = *self;
        let mut i: usize = 0;
        while i < self.torrents.len()
            invariant
                i <= self.torrents@.len(),
                start.wf(),
                self.wf(),
                self.torrents@.len() == start.torrents@.len(),
                *self == (App { torrents: self.torrents, ..start }),
                forall|j: int|
                    i <= j < self.torrents@.len() ==> self.torrents@[j] == start.torrents@[j],
                forall|j: int|
                    0 <= j < i ==> #[trigger] self.torrents@[j] == uncategorised(
                        start.torrents@[j],
                        name@,
                    ),
            decreases start.torrents@.len() - i,
        {
            let inside = match &self.torrents[i].category {
                Some(own) => same(own.as_str(), name),
                None => false,
            };
            if inside {
                self.torrents[i].category = None;
            }
            i = i + 1;
        }
        assert(self.torrents@ =~= start.torrents@.map_values(
            |t: ManagedTorrent| uncategorised(t, name@),
        ));
        let mut effects: Vec<Effect> = Vec::new();
        effects.push(Effect::PersistTorrents);
        assert(effects@ =~= seq![Effect::PersistTorrents]);
        Handling::Reply(
            Answer { effects, save: Some(SaveFile::Categories), response: Response::Done },
        )
    }

    /// Puts a torrent into a category that exists, or into none.
    pub fn set_category(&mut self, index: usize, name: Option<String>) -> (out: Handling)
        requires
            old(self).wf(),
        ensures
            final(self).wf(),
            if name is Some && !old(self).categories.entries.has(name->0@) {
                *final(self) == *old(self) && refuses(out, "unknown category: "@ + name->0@)
            } else {
                torrent_changed(
                    *old(self),
                    *final(self),
                    index,
                    ManagedTorrent { category: name, ..old(self).torrents@[index as int] },
                    Seq::empty(),
                    out,
                )
            },
    {
        if let Some(group) = &name {
            if self.categories.get(group.as_str()).is_none() {
                return refusal(concat2("unknown category: ", group.as_str()));
            }
        }
        if index >= self.torrents.len() {
            return no_torrent(index);
        }
        let ghost before = self.torrents@;
        self.torrents[index].category = name;
        assert(self.torrents@ =~= before.update(index as int, self.torrents@[index as int]));
        stored()
    }
}

// ----- feeds -----

/// What is told of the feeds.
pub open spec fn is_feed_list(list: Seq<FeedInfo>, feeds: Seq<RssFeed>) -> bool {
    &&& list.len() == feeds.len()
    &&& forall|i: int|
        0 <= i < list.len() ==> #[trigger] list[i] == (FeedInfo {
            index: i as usize,
            url: feeds[i].url,
            filter: feeds[i].filter,
            category: feeds[i].category,
            save_path: feeds[i].save_path,
            poll_interval_minutes: feeds[i].poll_interval_minutes,
            start_paused: feeds[i].start_paused,
        })
}

/// `k` is the position of the first feed with that address, or the number of feeds where there
/// is none.
pub open spec fn is_feed_position(feeds: Seq<RssFeed>, url: Seq<char>, k: int) -> bool {
    &&& 0 <= k <= feeds.len()
    &&& forall|j: int| 0 <= j < k ==> (#[trigger] feeds[j]).url@ != url
    &&& k < feeds.len() ==> feeds[k].url@ == url
}

/// What subscribing to a feed comes to: it replaces the feed of the same address, or is added
/// at the end and due at once.
pub open spec fn feed_added(before: App, after: App, feed: RssFeed, out: Handling) -> bool {
    let feeds = before.rss_feeds.feeds@;
    &&& exists|k: int| #[trigger]
        is_feed_position(feeds, feed.url@, k) && (if k < feeds.len() {
            &&& after.rss_feeds.feeds@ == feeds.update(k, feed)
            &&& after.rss_last_polled == before.rss_last_polled
        } else {
            &&& after.rss_feeds.feeds@ == feeds.push(feed)
            &&& !after.rss_last_polled.has(feed.url@)
            &&& same_polls_but(before, after, feed.url@)
        })
    &&& after == (App {
        rss_feeds: after.rss_feeds,
        rss_last_polled: after.rss_last_polled,
        ..before
    })
    &&& replies(out, Seq::empty(), Some(SaveFile::Feeds), Response::Done)
}

/// The times of all feeds but the one of that address are as before.
pub open spec fn same_polls_but(before: App, after: App, url: Seq<char>) -> bool {
    &&& forall|u: Seq<char>|
        u != url ==> (#[trigger] after.rss_last_polled.has(u) <==> before.rss_last_polled.has(u))
    &&& forall|u: Seq<char>|
        u != url && #[trigger] before.rss_last_polled.has(u) ==> after.rss_last_polled.at(u)
            == before.rss_last_polled.at(u)
}

/// What unsubscribing from a feed comes to.
pub open spec fn feed_removed(before: App, after: App, index: usize, out: Handling) -> bool {
    let feeds = before.rss_feeds.feeds@;
    if index >= feeds.len() {
        after == before && refuses(out, "invalid feed index: "@ + decimal(index as int))
    } else {
        let url = feeds[index as int].url@;
        &&& after == (App {
            rss_feeds: after.rss_feeds,
            rss_last_polled: after.rss_last_polled,
            ..before
        })
        &&& after.rss_feeds.feeds@ == feeds.remove(index as int)
        &&& !after.rss_last_polled.has(url)
        &&& same_polls_but(before, after, url)
        &&& replies(out, Seq::empty(), Some(SaveFile::Feeds), Response::Done)
    }
}

/// One of the feeds has the address.
pub open spec fn subscribed(feeds: Seq<RssFeed>, n: int, url: Seq<char>) -> bool {
    exists|i: int| 0 <= i < n && (#[trigger] feeds[i]).url@ == url
}

/// What a request to poll comes to: every feed is due, and the feeds are polled.
pub open spec fn feeds_polled(before: App, after: App, out: Handling) -> bool {
    let feeds = before.rss_feeds.feeds@;
    &&& after == (App { rss_last_polled: after.rss_last_polled, ..before })
    &&& forall|u: Seq<char>| #[trigger]
        after.rss_last_polled.has(u) <==> (before.rss_last_polled.has(u) && !subscribed(
            feeds,
            feeds.len() as int,
            u,
        ))
    &&& forall|u: Seq<char>| #[trigger]
        after.rss_last_polled.has(u) ==> after.rss_last_polled.at(u) == before.rss_last_polled.at(u)
    &&& replies(out, seq![Effect::PollFeeds], None, Response::Done)
}

impl App {
    /// What is told of the feeds.
    pub fn list_feeds(&self) -> (r: Vec<FeedInfo>)
        ensures
            is_feed_list(r@, self.rss_feeds.feeds@),
    {
        let feeds = &self.rss_feeds.feeds;
        let mut out: Vec<FeedInfo> = Vec::new();
        let mut i: usize = 0;
        while i < feeds.len()
            invariant
                i <= feeds@.len(),
                out@.len() == i,
                forall|j: int|
                    0 <= j < i ==> #[trigger] out@[j] == (FeedInfo {
                        index: j as usize,
                        url: feeds@[j].url,
                        filter: feeds@[j].filter,
                        category: feeds@[j].category,
                        save_path: feeds@[j].save_path,
                        poll_interval_minutes: feeds@[j].poll_interval_minutes,
                        start_paused: feeds@[j].start_paused,
                    }),
            decreases feeds@.len() - i,
        {
            let feed = &feeds[i];
            out.push(
                FeedInfo {
                    index: i,
                    url: feed.url.clone(),
                    filter: feed.filter.clone(),
                    category: copy_text(&feed.category),
                    save_path: copy_text(&feed.save_path),
                    poll_interval_minutes: feed.poll_interval_minutes,
                    start_paused: feed.start_paused,
                },
            );
            i = i + 1;
        }
        out
    }

    /// Subscribes to a feed.
    pub fn add_feed(&mut self, feed: RssFeed) -> (out: Handling)
        requires
            old(self).wf(),
        ensures
            final(self).wf(),
            feed_added(*old(self), *final(self), feed, out),
    {
        let effects: Vec<Effect> = Vec::new();
        assert(effects@ =~= Seq::<Effect>::empty());
        let at: usize = self.feed_position(feed.url.as_str());
        assert(is_feed_position(old(self).rss_feeds.feeds@, feed.url@, at as int));
        if at < self.rss_feeds.feeds.len() {
            self.rss_feeds.feeds.set(at, feed);
        } else {
            self.rss_last_polled.remove(feed.url.as_str());
            self.rss_feeds.feeds.push(feed);
        }
        Handling::Reply(Answer { effects, save: Some(SaveFile::Feeds), response: Response::Done })
    }

    /// The position of the first feed with that address, or the number of feeds where there is
    /// none.
    fn feed_position(&self, url: &str) -> (r: usize)
        ensures
            is_feed_position(self.rss_feeds.feeds@, url@, r as int),
    {
        let mut i: usize = 0;
        while i < self.rss_feeds.feeds.len()
            invariant
                i <= self.rss_feeds.feeds@.len(),
                forall|j: int|
                    0 <= j < i ==> (#[trigger] self.rss_feeds.feeds@[j]).url@ != url@,
            decreases self.rss_feeds.feeds@.len() - i,
        {
            if same(self.rss_feeds.feeds[i].url.as_str(), url) {
                return i;
            }
            i = i + 1;
        }
        i
    }

    /// Unsubscribes from a feed.
    pub fn remove_feed(&mut self, index: usize) -> (out: Handling)
        requires
            old(self).wf(),
        ensures
            final(self).wf(),
            feed_removed(*old(self), *final(self), index, out),
    {
        if index >= self.rss_feeds.feeds.len() {
            let number = decimal_u64(index as u64);
            return refusal(concat2("invalid feed index: ", number.as_str()));
        }
        let feed = self.rss_feeds.feeds.remove(index);
        self.rss_last_polled.remove(feed.url.as_str());
        let effects: Vec<Effect> = Vec::new();
        assert(effects@ =~= Seq::<Effect>::empty());
        Handling::Reply(Answer { effects, save: Some(SaveFile::Feeds), response: Response::Done })
    }

    /// Makes every feed due and has the feeds polled.
    pub fn poll_feeds(&mut self) -> (out: Handling)
        requires
            old(self).wf(),
        ensures
            final(self).wf(),
            feeds_polled(*old(self), *final(self), out),
    {
        let ghost start = *self;
        let ghost feeds = self.rss_feeds.feeds@;
        let mut i: usize = 0;
        while i < self.rss_feeds.feeds.len()
            invariant
                i <= feeds.len(),
                feeds == start.rss_feeds.feeds@,
                self.wf(),
                *self == (App { rss_last_polled: self.rss_last_polled, ..start }),
                forall|u: Seq<char>| #[trigger]
                    self.rss_last_polled.has(u) <==> (start.rss_last_polled.has(u) && !subscribed(
                        feeds,
                        i as int,
                        u,
                    )),
                forall|u: Seq<char>| #[trigger]
                    self.rss_last_polled.has(u) ==> self.rss_last_polled.at(u)
                        == start.rss_last_polled.at(u),
            decreases feeds.len() - i,
        {
            let ghost before = self.rss_last_polled;
            let url = self.rss_feeds.feeds[i].url.clone();
            self.rss_last_polled.remove(url.as_str());
            proof {
                assert forall|u: Seq<char>| subscribed(feeds, i + 1, u) <==> (subscribed(
                    feeds,
                    i as int,
                    u,
                ) || u == url@) by {
                    if subscribed(feeds, i as int, u) {
                        let k = choose|k: int| 0 <= k < i && (#[trigger] feeds[k]).url@ == u;
                        assert(feeds[k].url@ == u);
                    }
                    if u == url@ {
                        assert(feeds[i as int].url@ == u);
                    }
                }
                assert forall|u: Seq<char>| #[trigger]
                    self.rss_last_polled.has(u) <==> (start.rss_last_polled.has(u) && !subscribed(
                        feeds,
                        i + 1,
                        u,
                    )) by {
                    assert(before.has(u) == (start.rss_last_polled.has(u) && !subscribed(
                        feeds,
                        i as int,
                        u,
                    )));
                }
                assert forall|u: Seq<char>| #[trigger]
                    self.rss_last_polled.has(u) implies self.rss_last_polled.at(u)
                    == start.rss_last_polled.at(u) by {
                    assert(before.has(u));
                }
            }
            i = i + 1;
        }
        let mut effects: Vec<Effect> = Vec::new();
        effects.push(Effect::PollFeeds);
        assert(effects@ =~= seq![Effect::PollFeeds]);
        done(effects)
    }
}

} // verus!
