//! One answer for every request.

use crate::categories::Category;
use crate::config_keys::ratio_view;
use crate::ipc::{Request, Response, StatsInfo, TorrentDetail, TorrentInfo};
use crate::names::NameSet;
use crate::requests::{
    add_target, category_defined, category_gives, category_removed, config_changed, feed_added,
    feed_removed, feeds_polled, file_renamed, folder_renamed, grown, is_category_list, is_feed_list,
    is_feed_position, is_order, move_started, priorities_set, priority_set, removed, retagged,
    same_polls_but, stored, torrent_changed,
};
use crate::rss::RssFeed;
use crate::server::{
    bad_index, done, file_infos, is_file_list, is_info, is_info_list, is_peer_list, is_tracker_list,
    no_torrent, peer_infos, refuses, replies, shown_name, status_to_info, told, tracker_infos,
    Answer, App, Effect, Facts, Handling, ManagedTorrent, SaveFile, TorrentFacts,
};
use crate::text::{concat3, decimal, decimal_u64, is_empty, opt_text, texts, trim};
use vstd::prelude::*;

verus! {

/// A command to the torrent at that position, which changes nothing of the daemon's own.
pub open spec fn commanded(
    before: App,
    after: App,
    index: usize,
    effects: Seq<Effect>,
    out: Handling,
) -> bool {
    &&& after == before
    &&& if index < before.torrents@.len() {
        replies(out, effects, None, Response::Done)
    } else {
        refuses(out, bad_index(index))
    }
}

/// How many of the first `n` torrents are not paused.
pub open spec fn active(facts: Seq<TorrentFacts>, n: int) -> nat
    decreases n,
{
    if n <= 0 {
        0
    } else {
        active(facts, n - 1) + (if facts[n - 1].status.is_paused {
            0nat
        } else {
            1nat
        })
    }
}

/// The counters of the session and of the list.
pub open spec fn stats_of(app: App, facts: Facts) -> StatsInfo {
    let n = app.torrents@.len() as int;
    let running = active(facts.torrents@, n);
    StatsInfo {
        num_torrents: n as i32,
        active_torrents: running as i32,
        paused_torrents: (n - running) as i32,
        download_rate: facts.stats.download_rate,
        upload_rate: facts.stats.upload_rate,
        total_download: facts.stats.total_download,
        total_upload: facts.stats.total_upload,
        total_dht_nodes: facts.stats.total_dht_nodes,
        num_peers: facts.stats.num_peers,
    }
}

/// What resuming a torrent comes to: it may be acted on for seed limits again.
pub open spec fn resumed(before: App, after: App, index: usize, out: Handling) -> bool {
    if index < before.torrents@.len() {
        let hash = before.torrents@[index as int].info_hash@;
        &&& after == (App { seed_limit_acted: after.seed_limit_acted, ..before })
        &&& forall|h: Seq<char>| #[trigger]
            after.seed_limit_acted.has(h) <==> (before.seed_limit_acted.has(h) && h != hash)
        &&& replies(
            out,
            seq![Effect::Resume { index }, Effect::SaveResume { index }],
            None,
            Response::Done,
        )
    } else {
        after == before && refuses(out, bad_index(index))
    }
}

/// What is told of one torrent in detail.
pub open spec fn detailed(app: App, index: usize, facts: Facts, out: Handling) -> bool {
    if index < app.torrents@.len() {
        &&& out matches Handling::Reply(a)
        &&& a.effects@.len() == 0 && a.save is None
        &&& a.response matches Response::TorrentDetail(detail)
        &&& is_info(
            detail.info,
            index,
            app.torrents@[index as int],
            facts.torrents@[index as int],
        )
        &&& is_peer_list(detail.peers@, facts.target.peers@)
        &&& is_file_list(detail.files@, facts.target)
        &&& is_tracker_list(detail.trackers@, facts.target.trackers@)
    } else {
        refuses(out, bad_index(index))
    }
}

/// What tagging all torrents anew comes to.
pub open spec fn all_retagged(before: App, after: App, facts: Facts, out: Handling) -> bool {
    let n = before.torrents@.len() as int;
    let count = grown(before.torrents@, after.torrents@, n);
    &&& after.tag_rules == (match facts.rules {
        Some(fresh) => fresh,
        None => before.tag_rules,
    })
    &&& after == (App { tag_rules: after.tag_rules, torrents: after.torrents, ..before })
    &&& after.torrents@.len() == n
    &&& forall|i: int|
        0 <= i < n ==> retagged(
            before.torrents@[i],
            #[trigger] after.torrents@[i],
            after.tag_rules,
            facts.torrents@[i],
        )
    &&& out matches Handling::Reply(a)
    &&& a.save is None
    &&& a.effects@ == (if count > 0 {
        seq![Effect::PersistTorrents]
    } else {
        Seq::empty()
    })
    &&& a.response matches Response::Config(text)
    &&& text@ == "retagged "@ + decimal(count as int) + " torrent(s)\n"@
}

/// The name of the interface, empty where none is given.
pub open spec fn interface_name(interface: Option<String>) -> Seq<char> {
    match interface {
        Some(name) => name@,
        None => Seq::empty(),
    }
}

/// What pinning a torrent to an interface comes to.
pub open spec fn pinned(
    before: App,
    after: App,
    index: usize,
    interface: Option<String>,
    out: Handling,
) -> bool {
    if index < before.torrents@.len() {
        let i = index as int;
        &&& after == (App { torrents: after.torrents, ..before })
        &&& after.torrents@ == before.torrents@.update(
            i,
            ManagedTorrent { interface_override: interface, ..before.torrents@[i] },
        )
        &&& out matches Handling::Reply(a)
        &&& a.save is None && a.response == Response::Done
        &&& a.effects@.len() == 2
        &&& a.effects@[0] matches Effect::UseInterface { index: t, name }
        &&& t == index && name@ == interface_name(interface)
        &&& a.effects@[1] == Effect::PersistTorrents
    } else {
        after == before && refuses(out, bad_index(index))
    }
}

/// What the world outside must report for a request to be answered.
pub open spec fn facts_fit(app: App, request: Request, facts: Facts) -> bool {
    match request {
        Request::List => facts.torrents@.len() == app.torrents@.len(),
        Request::Info { .. } => facts.torrents@.len() == app.torrents@.len(),
        Request::RetagAll => facts.torrents@.len() == app.torrents@.len(),
        Request::Stats => facts.torrents@.len() == app.torrents@.len() && app.torrents@.len()
            <= i32::MAX,
        Request::SetTags { tags, .. } => tags.wf(),
        _ => true,
    }
}

/// How a request is answered and what it changes.
pub open spec fn handled(
    before: App,
    after: App,
    request: Request,
    facts: Facts,
    out: Handling,
) -> bool {
    match request {
        Request::List => {
            &&& after == before
            &&& out matches Handling::Reply(a)
            &&& a.effects@.len() == 0 && a.save is None
            &&& a.response matches Response::TorrentList(list)
            &&& is_info_list(list@, before.torrents@, facts.torrents@)
        },
        Request::Info { index } => after == before && detailed(before, index, facts, out),
        Request::Add { uri, save_path, category, start_paused, content_layout } => {
            &&& after == before
            &&& out matches Handling::Add(order)
            &&& is_order(order, before, uri, save_path, category, start_paused, content_layout)
        },
        Request::Remove { index, delete_files } => removed(
            before,
            after,
            index,
            delete_files,
            out,
        ),
        Request::Pause { index } => commanded(
            before,
            after,
            index,
            seq![Effect::Pause { index }, Effect::SaveResume { index }],
            out,
        ),
        Request::Resume { index } => resumed(before, after, index, out),
        Request::Recheck { index } => commanded(
            before,
            after,
            index,
            seq![Effect::Recheck { index }],
            out,
        ),
        Request::Stats => after == before && replies(
            out,
            Seq::empty(),
            None,
            Response::Stats(stats_of(before, facts)),
        ),
        Request::GetConfig => after == before && replies(
            out,
            Seq::empty(),
            None,
            Response::Config(facts.config_text),
        ),
        Request::SetConfig { key, value } => config_changed(
            before,
            after,
            key@,
            value@,
            ratio_view(facts.ratio),
            out,
        ),
        Request::SaveConfig => after == before && replies(
            out,
            Seq::empty(),
            Some(SaveFile::Config),
            Response::Done,
        ),
        Request::RenameFile { index, file_index, new_name } => after == before && file_renamed(
            before,
            index,
            file_index,
            new_name@,
            facts.target.files@,
            out,
        ),
        Request::RenameFolder { index, old_prefix, new_prefix } => after == before
            && folder_renamed(
            before,
            index,
            old_prefix@,
            new_prefix@,
            facts.target.files@,
            out,
        ),
        Request::Move { index, new_save_path } => after == before && move_started(
            before,
            index,
            new_save_path@,
            out,
        ),
        Request::Reannounce { index } => commanded(
            before,
            after,
            index,
            seq![Effect::Reannounce { index }],
            out,
        ),
        Request::SetFilePriority { index, file_index, priority } => after == before
            && priority_set(before, index, file_index, priority, facts.target.files@, out),
        Request::SetFilePrioritiesBatch { index, priorities } => after == before
            && priorities_set(before, index, priorities@, out),
        Request::Magnet { index } => {
            &&& after == before
            &&& if index < before.torrents@.len() {
                replies(out, Seq::empty(), None, Response::Magnet(facts.target.magnet_uri))
            } else {
                refuses(out, bad_index(index))
            }
        },
        Request::SetSequential { index, enabled } => commanded(
            before,
            after,
            index,
            seq![Effect::SetSequential { index, enabled }],
            out,
        ),
        Request::SetFirstLastPriority { index, enabled } => commanded(
            before,
            after,
            index,
            seq![Effect::SetFirstLast { index, enabled }],
            out,
        ),
        Request::SetTags { index, tags } => torrent_changed(
            before,
            after,
            index,
            ManagedTorrent { tags, ..before.torrents@[index as int] },
            Seq::empty(),
            out,
        ),
        Request::SetCategory { index, name } => if name is Some
            && !before.categories.entries.has(name->0@) {
            after == before && refuses(out, "unknown category: "@ + name->0@)
        } else {
            torrent_changed(
                before,
                after,
                index,
                ManagedTorrent { category: name, ..before.torrents@[index as int] },
                Seq::empty(),
                out,
            )
        },
        Request::ListCategories => {
            &&& after == before
            &&& out matches Handling::Reply(a)
            &&& a.effects@.len() == 0 && a.save is None
            &&& a.response matches Response::Categories(list)
            &&& is_category_list(list@, before)
        },
        Request::SetCategoryDefinition { name, save_path, add_tags } => category_defined(
            before,
            after,
            name@,
            Category { save_path, add_tags },
            out,
        ),
        Request::RemoveCategory { name } => category_removed(before, after, name@, out),
        Request::RenameTorrent { index, new_name } => torrent_changed(
            before,
            after,
            index,
            ManagedTorrent {
                display_name: if new_name@.len() == 0 {
                    None
                } else {
                    Some(new_name)
                },
                ..before.torrents@[index as int]
            },
            Seq::empty(),
            out,
        ),
        Request::SetTorrentInterface { index, interface } => pinned(
            before,
            after,
            index,
            interface,
            out,
        ),
        Request::RetagAll => all_retagged(before, after, facts, out),
        Request::ListFeeds => {
            &&& after == before
            &&& out matches Handling::Reply(a)
            &&& a.effects@.len() == 0 && a.save is None
            &&& a.response matches Response::Feeds(list)
            &&& is_feed_list(list@, before.rss_feeds.feeds@)
        },
        Request::AddFeed {
            url,
            filter,
            category,
            save_path,
            poll_interval_minutes,
            start_paused,
        } => feed_added(
            before,
            after,
            RssFeed { url, filter, category, save_path, poll_interval_minutes, start_paused },
            out,
        ),
        Request::RemoveFeed { index } => feed_removed(before, after, index, out),
        Request::PollFeeds => feeds_polled(before, after, out),
        Request::SetTorrentRateLimit { index, download, upload } => commanded(
            before,
            after,
            index,
            seq![
                Effect::SetDownloadLimit { index, limit: download },
                Effect::SetUploadLimit { index, limit: upload },
            ],
            out,
        ),
        Request::AddTracker { index, url, tier } => commanded(
            before,
            after,
            index,
            seq![Effect::AddTracker { index, url, tier }],
            out,
        ),
        Request::RemoveTracker { index, url } => commanded(
            before,
            after,
            index,
            seq![Effect::RemoveTracker { index, url }],
            out,
        ),
        Request::Shutdown => after == before && replies(
            out,
            Seq::empty(),
            None,
            Response::Done,
        ),
    }
}

impl App {
    /// Commands the torrent at that position to do one thing.
    fn command(&self, index: usize, effect: Effect) -> (out: Handling)
        ensures
            commanded(*self, *self, index, seq![effect], out),
    {
        if index >= self.torrents.len() {
            return no_torrent(index);
        }
        let mut effects: Vec<Effect> = Vec::new();
        effects.push(effect);
        assert(effects@ =~= seq![effect]);
        done(effects)
    }

    /// Commands the torrent at that position to do two things.
    fn command_two(&self, index: usize, first: Effect, second: Effect) -> (out: Handling)
        ensures
            commanded(*self, *self, index, seq![first, second], out),
    {
        if index >= self.torrents.len() {
            return no_torrent(index);
        }
        let mut effects: Vec<Effect> = Vec::new();
        effects.push(first);
        effects.push(second);
        assert(effects@ =~= seq![first, second]);
        done(effects)
    }

    /// What is told of all torrents.
    fn list(&self, facts: &Facts) -> (r: Vec<TorrentInfo>)
        requires
            facts.torrents@.len() == self.torrents@.len(),
        ensures
            is_info_list(r@, self.torrents@, facts.torrents@),
    {
        let mut out: Vec<TorrentInfo> = Vec::new();
        let mut i: usize = 0;
        while i < self.torrents.len()
            invariant
                i <= self.torrents@.len(),
                facts.torrents@.len() == self.torrents@.len(),
                out@.len() == i,
                forall|j: int|
                    0 <= j < i ==> is_info(
                        #[trigger] out@[j],
                        j as usize,
                        self.torrents@[j],
                        facts.torrents@[j],
                    ),
            decreases self.torrents@.len() - i,
        {
            out.push(status_to_info(i, &self.torrents[i], &facts.torrents[i]));
            i = i + 1;
        }
        out
    }

    /// What is told of one torrent in detail.
    fn detail(&self, index: usize, facts: &Facts) -> (out: Handling)
        requires
            facts.torrents@.len() == self.torrents@.len(),
        ensures
            detailed(*self, index, *facts, out),
    {
        if index >= self.torrents.len() {
            return no_torrent(index);
        }
        let info = status_to_info(index, &self.torrents[index], &facts.torrents[index]);
        let peers = peer_infos(&facts.target.peers);
        let files = file_infos(&facts.target);
        let trackers = tracker_infos(&facts.target.trackers);
        told(Response::TorrentDetail(Box::new(TorrentDetail { info, peers, files, trackers })))
    }

    /// The counters of the session and of the list.
    fn stats(&self, facts: &Facts) -> (r: StatsInfo)
        requires
            facts.torrents@.len() == self.torrents@.len(),
            self.torrents@.len() <= i32::MAX,
        ensures
            r == stats_of(*self, *facts),
    {
        let mut running: i32 = 0;
        let mut i: usize = 0;
        while i < facts.torrents.len()
            invariant
                i <= facts.torrents@.len() <= i32::MAX,
                running == active(facts.torrents@, i as int),
                0 <= running <= i,
            decreases facts.torrents@.len() - i,
        {
            if !facts.torrents[i].status.is_paused {
                running = running + 1;
            }
            i = i + 1;
        }
        let total: i32 = self.torrents.len() as i32;
        StatsInfo {
            num_torrents: total,
            active_torrents: running,
            paused_torrents: total - running,
            download_rate: facts.stats.download_rate,
            upload_rate: facts.stats.upload_rate,
            total_download: facts.stats.total_download,
            total_upload: facts.stats.total_upload,
            total_dht_nodes: facts.stats.total_dht_nodes,
            num_peers: facts.stats.num_peers,
        }
    }

    /// Lets a torrent run again.
    fn resume(&mut self, index: usize) -> (out: Handling)
        requires
            old(self).wf(),
        ensures
            final(self).wf(),
            resumed(*old(self), *final(self), index, out),
    {
        if index >= self.torrents.len() {
            return no_torrent(index);
        }
        let hash = self.torrents[index].info_hash.clone();
        self.seed_limit_acted.remove(hash.as_str());
        self.command_two(index, Effect::Resume { index }, Effect::SaveResume { index })
    }

    /// Replaces the tags of a torrent.
    fn set_tags(&mut self, index: usize, tags: NameSet) -> (out: Handling)
        requires
            old(self).wf(),
            tags.wf(),
        ensures
            final(self).wf(),
            torrent_changed(
                *old(self),
                *final(self),
                index,
                ManagedTorrent { tags, ..old(self).torrents@[index as int] },
                Seq::empty(),
                out,
            ),
    {
        if index >= self.torrents.len() {
            return no_torrent(index);
        }
        let ghost before = self.torrents@;
        self.torrents[index].tags = tags;
        assert(self.torrents@ =~= before.update(index as int, self.torrents@[index as int]));
        stored()
    }

    /// Gives a torrent a name of the user's own, or takes it away.
    fn rename_torrent(&mut self, index: usize, new_name: String) -> (out: Handling)
        requires
            old(self).wf(),
        ensures
            final(self).wf(),
            torrent_changed(
                *old(self),
                *final(self),
                index,
                ManagedTorrent {
                    display_name: if new_name@.len() == 0 {
                        None
                    } else {
                        Some(new_name)
                    },
                    ..old(self).torrents@[index as int]
                },
                Seq::empty(),
                out,
            ),
    {
        if index >= self.torrents.len() {
            return no_torrent(index);
        }
        let ghost before = self.torrents@;
        let name = if is_empty(new_name.as_str()) { None } else { Some(new_name) };
        self.torrents[index].display_name = name;
        assert(self.torrents@ =~= before.update(index as int, self.torrents@[index as int]));
        stored()
    }

    /// Pins a torrent to a network interface, or lets it use the session's.
    fn pin(&mut self, index: usize, interface: Option<String>) -> (out: Handling)
        requires
            old(self).wf(),
        ensures
            final(self).wf(),
            pinned(*old(self), *final(self), index, interface, out),
    {
        if index >= self.torrents.len() {
            return no_torrent(index);
        }
        let ghost before = self.torrents@;
        let name = match &interface {
            Some(name) => name.clone(),
            None => String::new(),
        };
        assert(name@ =~= interface_name(interface));
        self.torrents[index].interface_override = interface;
        assert(self.torrents@ =~= before.update(index as int, self.torrents@[index as int]));
        let mut effects: Vec<Effect> = Vec::new();
        effects.push(Effect::UseInterface { index, name });
        effects.push(Effect::PersistTorrents);
        done(effects)
    }

    /// Tags all torrents anew.
    fn retag(&mut self, facts: Facts) -> (out: Handling)
        requires
            old(self).wf(),
            facts.torrents@.len() == old(self).torrents@.len(),
        ensures
            final(self).wf(),
            all_retagged(*old(self), *final(self), facts, out),
    {
        let count: usize = self.retag_all(facts.rules, &facts.torrents);
        let mut effects: Vec<Effect> = Vec::new();
        if count > 0 {
            effects.push(Effect::PersistTorrents);
        }
        assert(effects@ =~= if count > 0 { seq![Effect::PersistTorrents] } else { Seq::empty() });
        let number = decimal_u64(count as u64);
        Handling::Reply(
            Answer {
                effects,
                save: None,
                response: Response::Config(
                    concat3("retagged ", number.as_str(), " torrent(s)\n"),
                ),
            },
        )
    }

    /// Answers a request.
    pub fn handle_request(&mut self, request: Request, facts: Facts) -> (out: Handling)
        requires
            old(self).wf(),
            facts_fit(*old(self), request, facts),
        ensures
            final(self).wf(),
            handled(*old(self), *final(self), request, facts, out),
    {
        match request {
            Request::List => told(Response::TorrentList(self.list(&facts))),
            Request::Info { index } => self.detail(index, &facts),
            Request::Add { uri, save_path, category, start_paused, content_layout } => {
                Handling::Add(
                    self.order_add(uri, save_path, category, start_paused, content_layout),
                )
            },
            Request::Remove { index, delete_files } => self.remove(index, delete_files),
            Request::Pause { index } => self.command_two(
                index,
                Effect::Pause { index },
                Effect::SaveResume { index },
            ),
            Request::Resume { index } => self.resume(index),
            Request::Recheck { index } => self.command(index, Effect::Recheck { index }),
            Request::Stats => told(Response::Stats(self.stats(&facts))),
            Request::GetConfig => told(Response::Config(facts.config_text)),
            Request::SetConfig { key, value } => self.apply_config_change(
                key.as_str(),
                value.as_str(),
                &facts.ratio,
            ),
            Request::SaveConfig => {
                let effects: Vec<Effect> = Vec::new();
                assert(effects@ =~= Seq::<Effect>::empty());
                Handling::Reply(
                    Answer { effects, save: Some(SaveFile::Config), response: Response::Done },
                )
            },
            Request::RenameFile { index, file_index, new_name } => self.rename_file(
                index,
                file_index,
                new_name.as_str(),
                &facts.target.files,
            ),
            Request::RenameFolder { index, old_prefix, new_prefix } => self.rename_folder(
                index,
                old_prefix.as_str(),
                new_prefix.as_str(),
                &facts.target.files,
            ),
            Request::Move { index, new_save_path } => self.move_storage(
                index,
                new_save_path.as_str(),
            ),
            Request::Reannounce { index } => self.command(index, Effect::Reannounce { index }),
            Request::SetFilePriority { index, file_index, priority } => self.set_file_priority(
                index,
                file_index,
                priority,
                &facts.target.files,
            ),
            Request::SetFilePrioritiesBatch { index, priorities } => self.set_file_priorities(
                index,
                &priorities,
            ),
            Request::Magnet { index } => {
                if index < self.torrents.len() {
                    told(Response::Magnet(facts.target.magnet_uri))
                } else {
                    no_torrent(index)
                }
            },
            Request::SetSequential { index, enabled } => self.command(
                index,
                Effect::SetSequential { index, enabled },
            ),
            Request::SetFirstLastPriority { index, enabled } => self.command(
                index,
                Effect::SetFirstLast { index, enabled },
            ),
            Request::SetTags { index, tags } => self.set_tags(index, tags),
            Request::SetCategory { index, name } => self.set_category(index, name),
            Request::ListCategories => told(Response::Categories(self.list_categories())),
            Request::SetCategoryDefinition { name, save_path, add_tags } => self.define_category(
                name,
                Category { save_path, add_tags },
            ),
            Request::RemoveCategory { name } => self.remove_category(name.as_str()),
            Request::RenameTorrent { index, new_name } => self.rename_torrent(index, new_name),
            Request::SetTorrentInterface { index, interface } => self.pin(index, interface),
            Request::RetagAll => self.retag(facts),
            Request::ListFeeds => told(Response::Feeds(self.list_feeds())),
            Request::AddFeed {
                url,
                filter,
                category,
                save_path,
                poll_interval_minutes,
                start_paused,
            } => self.add_feed(
                RssFeed { url, filter, category, save_path, poll_interval_minutes, start_paused },
            ),
            Request::RemoveFeed { index } => self.remove_feed(index),
            Request::PollFeeds => self.poll_feeds(),
            Request::SetTorrentRateLimit { index, download, upload } => self.command_two(
                index,
                Effect::SetDownloadLimit { index, limit: download },
                Effect::SetUploadLimit { index, limit: upload },
            ),
            Request::AddTracker { index, url, tier } => self.command(
                index,
                Effect::AddTracker { index, url, tier },
            ),
            Request::RemoveTracker { index, url } => self.command(
                index,
                Effect::RemoveTracker { index, url },
            ),
            Request::Shutdown => told(Response::Done),
        }
    }
}

// ----- laws -----

/// A request that is refused changes nothing.
pub proof fn law_refused_request_changes_nothing(
    before: App,
    after: App,
    request: Request,
    facts: Facts,
    out: Handling,
    reason: Seq<char>,
)
    requires
        handled(before, after, request, facts, out),
        refuses(out, reason),
    ensures
        after == before,
{
    assert(seq![Effect::ApplySettings].len() == 1);
}

/// A request that only asks changes nothing.
pub proof fn law_questions_change_nothing(
    before: App,
    after: App,
    request: Request,
    facts: Facts,
    out: Handling,
)
    requires
        handled(before, after, request, facts, out),
        request is List || request is Info || request is Stats || request is GetConfig
            || request is Magnet || request is ListCategories || request is ListFeeds,
    ensures
        after == before,
        out matches Handling::Reply(a) && a.effects@.len() == 0 && a.save is None,
{
}

/// After a category was removed no torrent is in it, and each torrent keeps its save path.
pub proof fn law_removed_category_is_empty(
    before: App,
    after: App,
    name: Seq<char>,
    out: Handling,
)
    requires
        category_removed(before, after, name, out),
        before.categories.entries.has(name),
    ensures
        !after.categories.entries.has(name),
        after.torrents@.len() == before.torrents@.len(),
        forall|i: int|
            0 <= i < after.torrents@.len() ==> opt_text((#[trigger] after.torrents@[i]).category)
                != Some(name) && after.torrents@[i].save_path == before.torrents@[i].save_path,
{
    assert forall|i: int| 0 <= i < after.torrents@.len() implies opt_text(
        (#[trigger] after.torrents@[i]).category,
    ) != Some(name) && after.torrents@[i].save_path == before.torrents@[i].save_path by {
        assert(after.torrents@[i] == crate::requests::uncategorised(before.torrents@[i], name));
    }
}

/// Tagging anew takes no tag away, and counts exactly the torrents that got a new one.
pub proof fn law_retagging_only_adds(
    before: App,
    after: App,
    facts: Facts,
    out: Handling,
    i: int,
    tag: Seq<char>,
)
    requires
        all_retagged(before, after, facts, out),
        0 <= i < before.torrents@.len(),
        before.torrents@[i].tags.has(tag),
    ensures
        after.torrents@[i].tags.has(tag),
{
    assert(retagged(
        before.torrents@[i],
        after.torrents@[i],
        after.tag_rules,
        facts.torrents@[i],
    ));
}

/// Subscribing twice to one address leaves one subscription more than at first, at most: the
/// second replaces the first.
pub proof fn law_one_feed_per_address(
    start: App,
    once: App,
    twice: App,
    first: RssFeed,
    second: RssFeed,
    out1: Handling,
    out2: Handling,
)
    requires
        feed_added(start, once, first, out1),
        feed_added(once, twice, second, out2),
        first.url@ == second.url@,
    ensures
        twice.rss_feeds.feeds@.len() == once.rss_feeds.feeds@.len(),
        exists|k: int|
            0 <= k < twice.rss_feeds.feeds@.len() && #[trigger] twice.rss_feeds.feeds@[k] == second,
{
    let feeds = start.rss_feeds.feeds@;
    let mid = once.rss_feeds.feeds@;
    let k = choose|k: int| #[trigger]
        is_feed_position(feeds, first.url@, k) && (if k < feeds.len() {
            &&& mid == feeds.update(k, first)
            &&& once.rss_last_polled == start.rss_last_polled
        } else {
            &&& mid == feeds.push(first)
            &&& !once.rss_last_polled.has(first.url@)
            &&& same_polls_but(start, once, first.url@)
        });
    assert(mid[k] == first);
    let m = choose|m: int| #[trigger]
        is_feed_position(mid, second.url@, m) && (if m < mid.len() {
            &&& twice.rss_feeds.feeds@ == mid.update(m, second)
            &&& twice.rss_last_polled == once.rss_last_polled
        } else {
            &&& twice.rss_feeds.feeds@ == mid.push(second)
            &&& !twice.rss_last_polled.has(second.url@)
            &&& same_polls_but(once, twice, second.url@)
        });
    assert(m <= k) by {
        if m > k {
            assert(mid[k].url@ != second.url@);
        }
    }
    assert(twice.rss_feeds.feeds@[m] == second);
}

/// A torrent that got a name is listed by it from then on, and one whose name was cleared by the
/// one that the session has for it. Other torrents are listed as before.
pub proof fn law_renamed_torrent_is_listed_by_its_name(
    before: App,
    after: App,
    index: usize,
    name: String,
    facts: Facts,
    out: Handling,
    reported: Seq<TorrentFacts>,
    list: Seq<TorrentInfo>,
    i: int,
)
    requires
        handled(before, after, Request::RenameTorrent { index, new_name: name }, facts, out),
        index < before.torrents@.len(),
        is_info_list(list, after.torrents@, reported),
        0 <= i < before.torrents@.len(),
    ensures
        list[i].name@ == (if i == index {
            if name@.len() > 0 {
                name@
            } else {
                reported[i].status.name@
            }
        } else {
            shown_name(before.torrents@[i], reported[i].status)@
        }),
{
    assert(is_info(list[i], i as usize, after.torrents@[i], reported[i]));
}

/// A torrent that got tags is listed with exactly them.
pub proof fn law_tags_are_listed(
    before: App,
    after: App,
    index: usize,
    tags: NameSet,
    facts: Facts,
    out: Handling,
    reported: Seq<TorrentFacts>,
    list: Seq<TorrentInfo>,
)
    requires
        handled(before, after, Request::SetTags { index, tags }, facts, out),
        index < before.torrents@.len(),
        is_info_list(list, after.torrents@, reported),
    ensures
        list[index as int].tags.list() == tags.list(),
{
    assert(is_info(list[index as int], index, after.torrents@[index as int], reported[index as int]));
}

/// A category that was defined gives its folder to torrents that are added to it without one of
/// their own, and exactly its tags to all that are added to it.
pub proof fn law_defined_category_is_used(
    before: App,
    after: App,
    name: Seq<char>,
    definition: Category,
    out: Handling,
)
    requires
        category_defined(before, after, name, definition, out),
        trim(name).len() > 0,
    ensures
        add_target(after, None, Some(name)) == definition.save_path@,
        forall|path: Seq<char>| #[trigger] add_target(after, Some(path), Some(name)) == path,
        forall|tag: Seq<char>| #[trigger]
            category_gives(after, Some(name), tag) <==> texts(definition.add_tags@).contains(tag),
{
}

} // verus!
