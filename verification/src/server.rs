//! The daemon: the torrents it manages and how it answers requests.
//!
//! The session itself, the disk and the clock lie outside. What they report comes in as
//! [`Facts`]; what is to be done to them goes out as [`Effect`]s, which refer to torrents by
//! their position in the list.

use crate::binary64::{Real32, Real64};
use crate::bridge::{SessionStats, TorrentFile, TorrentStatus, TorrentTracker};
use crate::categories::{Categories, TagRules};
use crate::config::Config;
use crate::ipc::{ContentLayout, FileInfo, PeerInfo, Response, TorrentInfo, TrackerInfo};
use crate::names::{NameMap, NameSet};
use crate::rss::{RssFeeds, RssSeen};
use crate::text::{concat2, decimal, decimal_u64};
use vstd::prelude::*;

verus! {

// ----- state -----

/// One torrent that the daemon manages.
#[derive(Debug, Clone, PartialEq, Eq)]
pub struct ManagedTorrent {
    pub magnet_uri: Option<String>,
    pub torrent_path: Option<String>,
    pub save_path: String,
    pub info_hash: String,
    pub tags: NameSet,
    pub category: Option<String>,
    /// network interface of its own, in place of the session's
    pub interface_override: Option<String>,
    /// name that the user gave it, in place of its own
    pub display_name: Option<String>,
    /// set once the torrent was seen finished, so that the completion script runs once
    pub was_finished: bool,
    /// content layout that is still to be applied
    pub pending_layout: Option<ContentLayout>,
}

/// What is stored of a torrent, so that it can be added again on the next start.
#[derive(Debug, Clone, PartialEq, Eq)]
pub struct TorrentRecord {
    pub info_hash: String,
    pub magnet_uri: Option<String>,
    pub torrent_path: Option<String>,
    pub save_path: String,
    pub tags: NameSet,
    pub category: Option<String>,
    pub interface_override: Option<String>,
    pub display_name: Option<String>,
    pub pending_layout: Option<ContentLayout>,
}

/// Everything that the daemon knows.
#[derive(Debug, Clone, PartialEq, Eq)]
pub struct App {
    pub torrents: Vec<ManagedTorrent>,
    pub config: Config,
    pub categories: Categories,
    pub tag_rules: TagRules,
    pub rss_feeds: RssFeeds,
    pub rss_seen: RssSeen,
    /// when each feed was last polled with success, in milliseconds; a feed without an entry is due
    pub rss_last_polled: NameMap<u64>,
    /// torrents that were paused or removed for a seed limit already
    pub seed_limit_acted: NameSet,
    /// whether a scan of the watched folders is under way
    pub watch_dir_busy: bool,
    /// files of the watched folders that were taken up already
    pub watch_dir_seen: NameSet,
}

impl App {
    /// The sets and maps are in order.
    pub open spec fn wf(&self) -> bool {
        &&& forall|i: int| 0 <= i < self.torrents@.len() ==> (#[trigger] self.torrents@[i]).tags.wf()
        &&& self.categories.entries.wf()
        &&& self.rss_seen.wf()
        &&& self.rss_last_polled.wf()
        &&& self.seed_limit_acted.wf()
        &&& self.watch_dir_seen.wf()
    }

    /// A daemon without torrents. Every feed is due.
    pub fn new(
        config: Config,
        categories: Categories,
        tag_rules: TagRules,
        rss_feeds: RssFeeds,
        rss_seen: RssSeen,
    ) -> (r: App)
        requires
            categories.entries.wf(),
            rss_seen.wf(),
        ensures
            r.wf(),
            r.torrents@.len() == 0,
            r.config == config,
            r.categories == categories,
            r.tag_rules == tag_rules,
            r.rss_feeds == rss_feeds,
            r.rss_seen == rss_seen,
            r.rss_last_polled.list().len() == 0,
            r.seed_limit_acted.list().len() == 0,
            !r.watch_dir_busy,
            r.watch_dir_seen.list().len() == 0,
    {
        App {
            torrents: Vec::new(),
            config,
            categories,
            tag_rules,
            rss_feeds,
            rss_seen,
            rss_last_polled: NameMap::new(),
            seed_limit_acted: NameSet::new(),
            watch_dir_busy: false,
            watch_dir_seen: NameSet::new(),
        }
    }
}

// ----- what comes in and what goes out -----

/// What the session reports of one torrent.
#[derive(Debug, Clone, PartialEq, Eq)]
pub struct TorrentFacts {
    pub status: TorrentStatus,
    pub download_limit: i32,
    pub upload_limit: i32,
    /// addresses of the trackers
    pub trackers: Vec<String>,
}

/// What the session reports of the torrent that a request names.
#[derive(Debug, Clone, PartialEq, Eq)]
pub struct TargetFacts {
    pub peers: Vec<PeerInfo>,
    pub files: Vec<TorrentFile>,
    pub file_progress: Vec<Real32>,
    pub file_priorities: Vec<i32>,
    pub trackers: Vec<TorrentTracker>,
    pub magnet_uri: String,
}

/// What the world outside reports while a request is answered.
#[derive(Debug)]
pub struct Facts {
    /// one entry per torrent, in order
    pub torrents: Vec<TorrentFacts>,
    pub target: TargetFacts,
    pub stats: SessionStats,
    /// the configuration as it is written to disk
    pub config_text: String,
    /// the rules as they are on disk now, where they can be read
    pub rules: Option<TagRules>,
    /// what the value of a request reads as a real number
    pub ratio: Result<Real64, String>,
}

/// Something to be done outside.
#[derive(Debug, Clone, PartialEq, Eq)]
pub enum Effect {
    Pause { index: usize },
    Resume { index: usize },
    /// ask the session for the torrent's resume data
    SaveResume { index: usize },
    Recheck { index: usize },
    Reannounce { index: usize },
    RenameFile { index: usize, file: usize, path: String },
    SetPriority { index: usize, file: usize, priority: u8 },
    MoveStorage { index: usize, path: String },
    SetSequential { index: usize, enabled: bool },
    SetFirstLast { index: usize, enabled: bool },
    UseInterface { index: usize, name: String },
    SetDownloadLimit { index: usize, limit: i32 },
    SetUploadLimit { index: usize, limit: i32 },
    AddTracker { index: usize, url: String, tier: i32 },
    RemoveTracker { index: usize, url: String },
    /// take the torrent out of the session and delete its resume data
    RemoveTorrent { index: usize, delete_files: bool, info_hash: String },
    /// write the list of torrents to disk
    PersistTorrents,
    /// hand the configuration to the session
    ApplySettings,
    /// write the configuration to disk; a failure is not told to the client
    SaveConfig,
    /// poll the feeds that are due
    PollFeeds,
}

/// A file whose writing decides the answer.
#[derive(Debug, Clone, Copy, PartialEq, Eq, Structural)]
pub enum SaveFile {
    Config,
    Categories,
    Feeds,
}

/// The answer to a request: what is to be done, in order, the file that is to be written then,
/// and the response for the case that it could be written.
#[derive(Debug, Clone, PartialEq, Eq)]
pub struct Answer {
    pub effects: Vec<Effect>,
    pub save: Option<SaveFile>,
    pub response: Response,
}

impl Answer {
    /// The response, once it is known whether the file could be written.
    pub fn respond(self, saved: Result<(), String>) -> (r: Response)
        ensures
            r == (match saved {
                Err(reason) if self.save is Some => Response::Failed(reason),
                _ => self.response,
            }),
    {
        match saved {
            Err(reason) => {
                if self.save.is_some() {
                    Response::Failed(reason)
                } else {
                    self.response
                }
            },
            Ok(_) => self.response,
        }
    }
}

/// A torrent to be added: where it goes and what it gets.
#[derive(Debug, Clone, PartialEq, Eq)]
pub struct AddOrder {
    /// what the user gave to be added
    pub uri: String,
    /// the save path that the user gave, where there is one
    pub save_path: Option<String>,
    pub category: Option<String>,
    pub start_paused: bool,
    pub content_layout: ContentLayout,
    /// where the files go
    pub target: String,
    /// the tags that the category gives
    pub tags: NameSet,
}

/// A torrent to be moved.
#[derive(Debug, Clone, PartialEq, Eq)]
pub struct MoveOrder {
    pub index: usize,
    pub path: String,
}

/// How a request goes on.
#[derive(Debug, Clone, PartialEq, Eq)]
pub enum Handling {
    /// it is answered
    Reply(Answer),
    /// the source is to be resolved and handed to the session; [`App::finish_add`] answers then
    Add(AddOrder),
    /// the folder is to be made; [`App::finish_move`] answers then
    Move(MoveOrder),
}

/// The request is refused for that reason and has no effect.
pub open spec fn refuses(out: Handling, reason: Seq<char>) -> bool {
    &&& out matches Handling::Reply(a)
    &&& a.effects@.len() == 0
    &&& a.save is None
    &&& a.response matches Response::Failed(why)
    &&& why@ == reason
}

/// The request is answered so.
pub open spec fn replies(
    out: Handling,
    effects: Seq<Effect>,
    save: Option<SaveFile>,
    response: Response,
) -> bool {
    out matches Handling::Reply(a) && a.effects@ == effects && a.save == save && a.response
        == response
}

/// What is told of a position that no torrent has.
pub open spec fn bad_index(index: usize) -> Seq<char> {
    "invalid index: "@ + decimal(index as int)
}

/// The answer that refuses a request.
pub(crate) fn refusal(reason: String) -> (r: Handling)
    ensures
        refuses(r, reason@),
{
    Handling::Reply(Answer { effects: Vec::new(), save: None, response: Response::Failed(reason) })
}

/// The answer to a request for a torrent that is not there.
pub(crate) fn no_torrent(index: usize) -> (r: Handling)
    ensures
        refuses(r, bad_index(index)),
{
    let number = decimal_u64(index as u64);
    refusal(concat2("invalid index: ", number.as_str()))
}

/// The answer that a request is carried out by these effects.
pub(crate) fn done(effects: Vec<Effect>) -> (r: Handling)
    ensures
        replies(r, effects@, None, Response::Done),
{
    Handling::Reply(Answer { effects, save: None, response: Response::Done })
}

/// The answer that only tells something.
pub(crate) fn told(response: Response) -> (r: Handling)
    ensures
        replies(r, Seq::empty(), None, response),
{
    let effects: Vec<Effect> = Vec::new();
    assert(effects@ =~= Seq::<Effect>::empty());
    Handling::Reply(Answer { effects, save: None, response })
}

/// The same optional text.
pub(crate) fn copy_text(o: &Option<String>) -> (r: Option<String>)
    ensures
        r == *o,
{
    match o {
        Some(s) => Some(s.clone()),
        None => None,
    }
}

// ----- what is told of torrents -----

/// The name that a torrent is shown by.
pub open spec fn shown_name(torrent: ManagedTorrent, status: TorrentStatus) -> String {
    match torrent.display_name {
        Some(name) => name,
        None => status.name,
    }
}

/// What is told of the torrent at that position.
pub open spec fn is_info(
    info: TorrentInfo,
    index: usize,
    torrent: ManagedTorrent,
    facts: TorrentFacts,
) -> bool {
    let status = facts.status;
    &&& info == (TorrentInfo {
        index,
        info_hash: status.info_hash,
        name: shown_name(torrent, status),
        state: status.state,
        progress: status.progress,
        download_rate: status.download_rate,
        upload_rate: status.upload_rate,
        connected_peers: status.connected_peers,
        total_peers: status.total_peers,
        connected_seeds: status.connected_seeds,
        total_seeds: status.total_seeds,
        total_wanted: status.total_wanted,
        total_done: status.total_done,
        total_download: status.total_download,
        total_upload: status.total_upload,
        num_pieces: status.num_pieces,
        num_completed_pieces: status.num_completed_pieces,
        added_time: status.added_time,
        completed_time: status.completed_time,
        save_path: status.save_path,
        is_paused: status.is_paused,
        is_finished: status.is_finished,
        is_seeding: status.is_seeding,
        has_metadata: status.has_metadata,
        error: status.error,
        tags: info.tags,
        category: torrent.category,
        download_limit: facts.download_limit,
        upload_limit: facts.upload_limit,
    })
    &&& info.tags.list() == torrent.tags.list()
}

/// What is told of the torrent at that position.
pub fn status_to_info(index: usize, torrent: &ManagedTorrent, facts: &TorrentFacts) -> (r:
    TorrentInfo)
    ensures
        is_info(r, index, *torrent, *facts),
{
    let status = &facts.status;
    TorrentInfo {
        index,
        info_hash: status.info_hash.clone(),
        name: match &torrent.display_name {
            Some(name) => name.clone(),
            None => status.name.clone(),
        },
        state: status.state.clone(),
        progress: status.progress,
        download_rate: status.download_rate,
        upload_rate: status.upload_rate,
        connected_peers: status.connected_peers,
        total_peers: status.total_peers,
        connected_seeds: status.connected_seeds,
        total_seeds: status.total_seeds,
        total_wanted: status.total_wanted,
        total_done: status.total_done,
        total_download: status.total_download,
        total_upload: status.total_upload,
        num_pieces: status.num_pieces,
        num_completed_pieces: status.num_completed_pieces,
        added_time: status.added_time,
        completed_time: status.completed_time,
        save_path: status.save_path.clone(),
        is_paused: status.is_paused,
        is_finished: status.is_finished,
        is_seeding: status.is_seeding,
        has_metadata: status.has_metadata,
        error: status.error.clone(),
        tags: torrent.tags.duplicate(),
        category: copy_text(&torrent.category),
        download_limit: facts.download_limit,
        upload_limit: facts.upload_limit,
    }
}

/// What is told of all torrents.
pub open spec fn is_info_list(
    list: Seq<TorrentInfo>,
    torrents: Seq<ManagedTorrent>,
    facts: Seq<TorrentFacts>,
) -> bool {
    &&& list.len() == torrents.len()
    &&& forall|i: int|
        0 <= i < torrents.len() ==> is_info(#[trigger] list[i], i as usize, torrents[i], facts[i])
}

/// The priority of a file, normal where the session does not say.
pub open spec fn priority_of(priorities: Seq<i32>, i: int) -> u8 {
    if i < priorities.len() {
        priorities[i] as u8
    } else {
        4
    }
}

/// The progress of a file, none where the session does not say.
pub open spec fn progress_of(progress: Seq<Real32>, i: int) -> Real32 {
    if i < progress.len() {
        progress[i]
    } else {
        Real32 { bits: 0 }
    }
}

/// What is told of a torrent's files.
pub open spec fn is_file_list(list: Seq<FileInfo>, target: TargetFacts) -> bool {
    &&& list.len() == target.files@.len()
    &&& forall|i: int|
        0 <= i < list.len() ==> #[trigger] list[i] == (FileInfo {
            index: i as usize,
            path: target.files@[i].path,
            size: target.files@[i].size,
            progress: progress_of(target.file_progress@, i),
            priority: priority_of(target.file_priorities@, i),
        })
}

/// What is told of a torrent's trackers.
pub open spec fn is_tracker_list(list: Seq<TrackerInfo>, trackers: Seq<TorrentTracker>) -> bool {
    &&& list.len() == trackers.len()
    &&& forall|i: int|
        0 <= i < list.len() ==> #[trigger] list[i] == (TrackerInfo {
            url: trackers[i].url,
            tier: trackers[i].tier,
            verified: trackers[i].verified,
            updating: trackers[i].updating,
            fails: trackers[i].fails,
            message: trackers[i].message,
        })
}

/// What is told of a torrent's peers.
pub open spec fn is_peer_list(list: Seq<PeerInfo>, peers: Seq<PeerInfo>) -> bool {
    &&& list.len() == peers.len()
    &&& forall|i: int| 0 <= i < list.len() ==> #[trigger] list[i] == peers[i]
}

/// What is told of a torrent's files.
pub(crate) fn file_infos(target: &TargetFacts) -> (r: Vec<FileInfo>)
    ensures
        is_file_list(r@, *target),
{
    let mut out: Vec<FileInfo> = Vec::new();
    let mut i: usize = 0;
    while i < target.files.len()
        invariant
            i <= target.files@.len(),
            out@.len() == i,
            forall|j: int|
                0 <= j < i ==> #[trigger] out@[j] == (FileInfo {
                    index: j as usize,
                    path: target.files@[j].path,
                    size: target.files@[j].size,
                    progress: progress_of(target.file_progress@, j),
                    priority: priority_of(target.file_priorities@, j),
                }),
        decreases target.files@.len() - i,
    {
        let progress = if i < target.file_progress.len() {
            target.file_progress[i]
        } else {
            Real32 { bits: 0 }
        };
        let priority: u8 = if i < target.file_priorities.len() {
            #[verifier::truncate]
            (target.file_priorities[i] as u8)
        } else {
            4
        };
        out.push(
            FileInfo {
                index: i,
                path: target.files[i].path.clone(),
                size: target.files[i].size,
                progress,
                priority,
            },
        );
        i = i + 1;
    }
    out
}

/// What is told of a torrent's trackers.
pub(crate) fn tracker_infos(trackers: &Vec<TorrentTracker>) -> (r: Vec<TrackerInfo>)
    ensures
        is_tracker_list(r@, trackers@),
{
    let mut out: Vec<TrackerInfo> = Vec::new();
    let mut i: usize = 0;
    while i < trackers.len()
        invariant
            i <= trackers@.len(),
            is_tracker_list(out@, trackers@.take(i as int)),
        decreases trackers@.len() - i,
    {
        let t = &trackers[i];
        out.push(
            TrackerInfo {
                url: t.url.clone(),
                tier: t.tier,
                verified: t.verified,
                updating: t.updating,
                fails: t.fails,
                message: t.message.clone(),
            },
        );
        i = i + 1;
    }
    assert(trackers@.take(trackers@.len() as int) =~= trackers@);
    out
}

/// What is told of a torrent's peers.
pub(crate) fn peer_infos(peers: &Vec<PeerInfo>) -> (r: Vec<PeerInfo>)
    ensures
        is_peer_list(r@, peers@),
{
    let mut out: Vec<PeerInfo> = Vec::new();
    let mut i: usize = 0;
    while i < peers.len()
        invariant
            i <= peers@.len(),
            is_peer_list(out@, peers@.take(i as int)),
        decreases peers@.len() - i,
    {
        let p = &peers[i];
        out.push(
            PeerInfo {
                ip: p.ip.clone(),
                port: p.port,
                download_rate: p.download_rate,
                upload_rate: p.upload_rate,
                client: p.client.clone(),
                progress: p.progress,
                flags: p.flags.clone(),
            },
        );
        i = i + 1;
    }
    assert(peers@.take(peers@.len() as int) =~= peers@);
    out
}

} // verus!
