//! What clients ask of the daemon and what it answers.

use crate::binary64::{Real32, Real64};
use crate::names::NameSet;
use crate::text::{opt_text, same, texts};
use vstd::prelude::*;

verus! {

/// snapshot of a single torrent's state, safe to send over ipc
#[derive(Debug, Clone, PartialEq, Eq)]
pub struct TorrentInfo {
    pub index: usize,
    pub info_hash: String,
    pub name: String,
    pub state: String,
    pub progress: Real64,
    pub download_rate: i64,
    pub upload_rate: i64,
    pub connected_peers: i64,
    pub total_peers: i64,
    pub connected_seeds: i64,
    pub total_seeds: i64,
    pub total_wanted: i64,
    pub total_done: i64,
    pub total_download: i64,
    pub total_upload: i64,
    pub num_pieces: i32,
    pub num_completed_pieces: i32,
    pub added_time: i64,
    pub completed_time: i64,
    pub save_path: String,
    pub is_paused: bool,
    pub is_finished: bool,
    pub is_seeding: bool,
    pub has_metadata: bool,
    pub error: String,
    pub tags: NameSet,
    pub category: Option<String>,
    /// per-torrent download limit in bytes/sec. -1 = inherit global, 0 = unlimited.
    pub download_limit: i32,
    /// per-torrent upload limit in bytes/sec. -1 = inherit global, 0 = unlimited.
    pub upload_limit: i32,
}

#[derive(Debug, Clone, PartialEq, Eq)]
pub struct PeerInfo {
    pub ip: String,
    pub port: i32,
    pub download_rate: i64,
    pub upload_rate: i64,
    pub client: String,
    pub progress: Real32,
    pub flags: String,
}

#[derive(Debug, Clone, PartialEq, Eq)]
pub struct FileInfo {
    pub index: usize,
    pub path: String,
    pub size: i64,
    /// completion fraction 0.0..=1.0
    pub progress: Real32,
    /// libtorrent priority 0..=7 (0 = don't download, 4 = normal, 7 = high)
    pub priority: u8,
}

#[derive(Debug, Clone, PartialEq, Eq)]
pub struct TrackerInfo {
    pub url: String,
    pub tier: i32,
    pub verified: bool,
    pub updating: bool,
    pub fails: i32,
    pub message: String,
}

#[derive(Debug, Clone, PartialEq, Eq)]
pub struct StatsInfo {
    pub num_torrents: i32,
    pub active_torrents: i32,
    pub paused_torrents: i32,
    pub download_rate: i64,
    pub upload_rate: i64,
    pub total_download: i64,
    pub total_upload: i64,
    pub total_dht_nodes: i64,
    pub num_peers: i32,
}

#[derive(Debug, Clone, PartialEq, Eq)]
pub struct TorrentDetail {
    pub info: TorrentInfo,
    pub peers: Vec<PeerInfo>,
    pub files: Vec<FileInfo>,
    pub trackers: Vec<TrackerInfo>,
}

#[derive(Debug, Clone, PartialEq, Eq)]
#[allow(inconsistent_fields)]
pub enum Request {
    List,
    Info { index: usize },
    Add { uri: String, save_path: Option<String>, category: Option<String>, start_paused: bool, content_layout: ContentLayout },
    Remove { index: usize, delete_files: bool },
    Pause { index: usize },
    Resume { index: usize },
    Recheck { index: usize },
    Stats,
    GetConfig,
    SetConfig { key: String, value: String },
    SaveConfig,
    /// rename a single file inside a torrent. `new_name` is the new path
    /// relative to the torrent's save_path; may contain subdirectory components.
    RenameFile { index: usize, file_index: usize, new_name: String },
    /// rename a folder by rewriting the prefix of every file path that starts
    /// with `old_prefix`. validation is atomic — if any file in the set would
    /// fail validation, none are renamed.
    RenameFolder { index: usize, old_prefix: String, new_prefix: String },
    /// move the entire torrent's save directory. async — libtorrent emits
    /// storage_moved_alert / storage_moved_failed_alert.
    Move { index: usize, new_save_path: String },
    /// force tracker announce immediately (bypass the regular interval)
    Reannounce { index: usize },
    /// set the download priority for a single file. 0 = skip, 1..=7 = normal..high.
    SetFilePriority { index: usize, file_index: usize, priority: u8 },
    /// set priorities for many files in one roundtrip. each tuple is (file_index, priority).
    SetFilePrioritiesBatch { index: usize, priorities: Vec<(usize, u8)> },
    /// build a shareable magnet URI for the active torrent
    Magnet { index: usize },
    /// toggle the sequential-download flag (front-to-back piece order)
    SetSequential { index: usize, enabled: bool },
    /// boost the first and last pieces of every file to highest priority
    SetFirstLastPriority { index: usize, enabled: bool },
    /// replace the tag set on a torrent
    SetTags { index: usize, tags: NameSet },
    /// set or clear the category on a torrent. `None` clears it.
    SetCategory { index: usize, name: Option<String> },
    /// list all configured categories with their save paths
    ListCategories,
    /// define or update a category (writes to categories.toml)
    SetCategoryDefinition { name: String, save_path: String, add_tags: Vec<String> },
    /// remove a category. torrents previously in it keep their save_path.
    RemoveCategory { name: String },
    /// set a custom display name for a torrent. stored server-side and used
    /// in place of the libtorrent name in all responses. empty string clears it.
    RenameTorrent { index: usize, new_name: String },
    /// pin a torrent's outgoing connections to a specific network interface.
    /// `None` clears the per-torrent override.
    SetTorrentInterface { index: usize, interface: Option<String> },
    /// re-evaluate rules.toml against every torrent and apply add_tags.
    /// returns the number of torrents whose tag set grew.
    RetagAll,
    /// list configured rss/atom feed subscriptions
    ListFeeds,
    /// add or replace a feed subscription
    AddFeed {
        url: String,
        filter: String,
        category: Option<String>,
        save_path: Option<String>,
        poll_interval_minutes: u64,
        start_paused: bool,
    },
    /// remove a feed by index (from ListFeeds order)
    RemoveFeed { index: usize },
    /// force an immediate poll of all feeds regardless of their intervals
    PollFeeds,
    /// set per-torrent rate limits in bytes/sec. -1 = inherit global, 0 = unlimited.
    SetTorrentRateLimit { index: usize, download: i32, upload: i32 },
    /// add a tracker url to a torrent at the given tier
    AddTracker { index: usize, url: String, tier: i32 },
    /// remove a tracker url from a torrent
    RemoveTracker { index: usize, url: String },
    Shutdown,
}

/// A request as plain values.
pub enum RequestView {
    List,
    Info { index: usize },
    Add { uri: Seq<char>, save_path: Option<Seq<char>>, category: Option<Seq<char>>, start_paused: bool, content_layout: ContentLayout },
    Remove { index: usize, delete_files: bool },
    Pause { index: usize },
    Resume { index: usize },
    Recheck { index: usize },
    Stats,
    GetConfig,
    SetConfig { key: Seq<char>, value: Seq<char> },
    SaveConfig,
    RenameFile { index: usize, file_index: usize, new_name: Seq<char> },
    RenameFolder { index: usize, old_prefix: Seq<char>, new_prefix: Seq<char> },
    Move { index: usize, new_save_path: Seq<char> },
    Reannounce { index: usize },
    SetFilePriority { index: usize, file_index: usize, priority: u8 },
    SetFilePrioritiesBatch { index: usize, priorities: Seq<(usize, u8)> },
    Magnet { index: usize },
    SetSequential { index: usize, enabled: bool },
    SetFirstLastPriority { index: usize, enabled: bool },
    SetTags { index: usize, tags: Set<Seq<char>> },
    SetCategory { index: usize, name: Option<Seq<char>> },
    ListCategories,
    SetCategoryDefinition { name: Seq<char>, save_path: Seq<char>, add_tags: Seq<Seq<char>> },
    RemoveCategory { name: Seq<char> },
    RenameTorrent { index: usize, new_name: Seq<char> },
    SetTorrentInterface { index: usize, interface: Option<Seq<char>> },
    RetagAll,
    ListFeeds,
    AddFeed { url: Seq<char>, filter: Seq<char>, category: Option<Seq<char>>, save_path: Option<Seq<char>>, poll_interval_minutes: u64, start_paused: bool },
    RemoveFeed { index: usize },
    PollFeeds,
    SetTorrentRateLimit { index: usize, download: i32, upload: i32 },
    AddTracker { index: usize, url: Seq<char>, tier: i32 },
    RemoveTracker { index: usize, url: Seq<char> },
    Shutdown,
}

impl View for Request {
    type V = RequestView;

    open spec fn view(&self) -> RequestView {
        match *self {
            Request::List => RequestView::List,
            Request::Info { index } => RequestView::Info {
                index,
            },
            Request::Add { uri, save_path, category, start_paused, content_layout } => RequestView::Add {
                uri: uri@,
                save_path: opt_text(save_path),
                category: opt_text(category),
                start_paused,
                content_layout,
            },
            Request::Remove { index, delete_files } => RequestView::Remove {
                index,
                delete_files,
            },
            Request::Pause { index } => RequestView::Pause {
                index,
            },
            Request::Resume { index } => RequestView::Resume {
                index,
            },
            Request::Recheck { index } => RequestView::Recheck {
                index,
            },
            Request::Stats => RequestView::Stats,
            Request::GetConfig => RequestView::GetConfig,
            Request::SetConfig { key, value } => RequestView::SetConfig {
                key: key@,
                value: value@,
            },
            Request::SaveConfig => RequestView::SaveConfig,
            Request::RenameFile { index, file_index, new_name } => RequestView::RenameFile {
                index,
                file_index,
                new_name: new_name@,
            },
            Request::RenameFolder { index, old_prefix, new_prefix } => RequestView::RenameFolder {
                index,
                old_prefix: old_prefix@,
                new_prefix: new_prefix@,
            },
            Request::Move { index, new_save_path } => RequestView::Move {
                index,
                new_save_path: new_save_path@,
            },
            Request::Reannounce { index } => RequestView::Reannounce {
                index,
            },
            Request::SetFilePriority { index, file_index, priority } => RequestView::SetFilePriority {
                index,
                file_index,
                priority,
            },
            Request::SetFilePrioritiesBatch { index, priorities } => RequestView::SetFilePrioritiesBatch {
                index,
                priorities: priorities@,
            },
            Request::Magnet { index } => RequestView::Magnet {
                index,
            },
            Request::SetSequential { index, enabled } => RequestView::SetSequential {
                index,
                enabled,
            },
            Request::SetFirstLastPriority { index, enabled } => RequestView::SetFirstLastPriority {
                index,
                enabled,
            },
            Request::SetTags { index, tags } => RequestView::SetTags {
                index,
                tags: tags.set(),
            },
            Request::SetCategory { index, name } => RequestView::SetCategory {
                index,
                name: opt_text(name),
            },
            Request::ListCategories => RequestView::ListCategories,
            Request::SetCategoryDefinition { name, save_path, add_tags } => RequestView::SetCategoryDefinition {
                name: name@,
                save_path: save_path@,
                add_tags: texts(add_tags@),
            },
            Request::RemoveCategory { name } => RequestView::RemoveCategory {
                name: name@,
            },
            Request::RenameTorrent { index, new_name } => RequestView::RenameTorrent {
                index,
                new_name: new_name@,
            },
            Request::SetTorrentInterface { index, interface } => RequestView::SetTorrentInterface {
                index,
                interface: opt_text(interface),
            },
            Request::RetagAll => RequestView::RetagAll,
            Request::ListFeeds => RequestView::ListFeeds,
            Request::AddFeed { url, filter, category, save_path, poll_interval_minutes, start_paused } => RequestView::AddFeed {
                url: url@,
                filter: filter@,
                category: opt_text(category),
                save_path: opt_text(save_path),
                poll_interval_minutes,
                start_paused,
            },
            Request::RemoveFeed { index } => RequestView::RemoveFeed {
                index,
            },
            Request::PollFeeds => RequestView::PollFeeds,
            Request::SetTorrentRateLimit { index, download, upload } => RequestView::SetTorrentRateLimit {
                index,
                download,
                upload,
            },
            Request::AddTracker { index, url, tier } => RequestView::AddTracker {
                index,
                url: url@,
                tier,
            },
            Request::RemoveTracker { index, url } => RequestView::RemoveTracker {
                index,
                url: url@,
            },
            Request::Shutdown => RequestView::Shutdown,
        }
    }
}

/// whether to wrap a torrent's content in a folder named after the torrent.
/// `Default` resolves to the `default_content_layout` config setting.
#[derive(Debug, Clone, Copy, PartialEq, Eq, Structural)]
pub enum ContentLayout {
    Default,
    Always,
    Never,
    IfMultiple,
}

impl Default for ContentLayout {
    fn default() -> (r: Self)
        ensures
            r == ContentLayout::Default,
    {
        ContentLayout::Default
    }
}

impl ContentLayout {
    /// The word that stands for the layout on screen.
    pub open spec fn label_text(self) -> Seq<char> {
        match self {
            ContentLayout::Default => "default"@,
            ContentLayout::Always => "always"@,
            ContentLayout::Never => "never"@,
            ContentLayout::IfMultiple => "if multiple files"@,
        }
    }

    /// The layout that the next press selects.
    pub open spec fn next(self) -> ContentLayout {
        match self {
            ContentLayout::Default => ContentLayout::Always,
            ContentLayout::Always => ContentLayout::Never,
            ContentLayout::Never => ContentLayout::IfMultiple,
            ContentLayout::IfMultiple => ContentLayout::Default,
        }
    }

    /// The layout with `Default` replaced by what the setting says.
    pub open spec fn resolved(self, setting: Seq<char>) -> ContentLayout {
        if self != ContentLayout::Default {
            self
        } else if setting == "always"@ {
            ContentLayout::Always
        } else if setting == "never"@ {
            ContentLayout::Never
        } else {
            ContentLayout::IfMultiple
        }
    }

    /// The word that stands for the layout on screen.
    pub fn label(self) -> (r: &'static str)
        ensures
            r@ == self.label_text(),
    {
        match self {
            ContentLayout::Default => "default",
            ContentLayout::Always => "always",
            ContentLayout::Never => "never",
            ContentLayout::IfMultiple => "if multiple files",
        }
    }

    /// The layout that the next press selects.
    pub fn cycle(self) -> (r: Self)
        ensures
            r == self.next(),
    {
        match self {
            ContentLayout::Default => ContentLayout::Always,
            ContentLayout::Always => ContentLayout::Never,
            ContentLayout::Never => ContentLayout::IfMultiple,
            ContentLayout::IfMultiple => ContentLayout::Default,
        }
    }

    /// Turns `Default` into a concrete layout by the configured word; a word that is not
    /// known stands for the natural `IfMultiple`.
    pub fn resolve(self, default_setting: &str) -> (r: ContentLayout)
        ensures
            r == self.resolved(default_setting@),
    {
        match self {
            ContentLayout::Default => {
                if same(default_setting, "always") {
                    ContentLayout::Always
                } else if same(default_setting, "never") {
                    ContentLayout::Never
                } else {
                    ContentLayout::IfMultiple
                }
            },
            other => other,
        }
    }
}

/// Four presses bring every layout back, and fewer do not.
pub proof fn law_cycle_has_period_four(layout: ContentLayout)
    ensures
        layout.next().next().next().next() == layout,
        layout.next() != layout,
        layout.next().next() != layout,
        layout.next().next().next() != layout,
{
}

/// A resolved layout is concrete, and resolving it again changes nothing.
pub proof fn law_resolve_is_concrete(layout: ContentLayout, setting: Seq<char>, other: Seq<char>)
    ensures
        layout.resolved(setting) != ContentLayout::Default,
        layout.resolved(setting).resolved(other) == layout.resolved(setting),
        layout != ContentLayout::Default ==> layout.resolved(setting) == layout,
{
}

#[derive(Debug, Clone, PartialEq, Eq)]
pub struct CategoryInfo {
    pub name: String,
    pub save_path: String,
    pub add_tags: Vec<String>,
    pub torrent_count: usize,
}

#[derive(Debug, Clone, PartialEq, Eq)]
pub struct FeedInfo {
    pub index: usize,
    pub url: String,
    pub filter: String,
    pub category: Option<String>,
    pub save_path: Option<String>,
    pub poll_interval_minutes: u64,
    pub start_paused: bool,
}

#[derive(Debug, Clone, PartialEq, Eq)]
pub enum Response {
    TorrentList(Vec<TorrentInfo>),
    TorrentDetail(Box<TorrentDetail>),
    Added { id: String },
    Stats(StatsInfo),
    Config(String),
    /// rename outcome. `renamed` are file indices that passed validation and
    /// were submitted to libtorrent; the final filesystem outcome arrives via
    /// alerts and is logged by the daemon. `rejected` are paths that failed
    /// pre-flight validation, paired with the human-readable reason.
    RenameResult { renamed: Vec<usize>, rejected: Vec<(usize, String)> },
    /// magnet URI for a torrent (empty string when invalid or not yet ready)
    Magnet(String),
    /// list of categories
    Categories(Vec<CategoryInfo>),
    /// list of rss feed subscriptions
    Feeds(Vec<FeedInfo>),
    /// the request was carried out and has nothing more to tell
    Done,
    /// the request was refused or failed, with the reason
    Failed(String),
}

} // verus!
