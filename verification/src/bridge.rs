//! Plain records of what the torrent session reports and of what it is told.

use crate::binary64::Real64;
use vstd::prelude::*;

verus! {

/// What the session reports of one torrent.
#[derive(Debug, Clone, PartialEq, Eq)]
pub struct TorrentStatus {
    pub name: String,
    pub info_hash: String,
    pub state: String,
    pub save_path: String,
    pub progress: Real64,
    pub total_download: i64,
    pub total_upload: i64,
    pub total_done: i64,
    pub total_wanted: i64,
    pub download_rate: i64,
    pub upload_rate: i64,
    pub total_peers: i64,
    pub connected_peers: i64,
    pub total_seeds: i64,
    pub connected_seeds: i64,
    pub num_pieces: i32,
    pub num_completed_pieces: i32,
    pub error: String,
    pub is_paused: bool,
    pub is_finished: bool,
    pub is_seeding: bool,
    pub has_metadata: bool,
    pub added_time: i64,
    pub completed_time: i64,
    pub list_peers: i32,
    pub list_seeds: i32,
    /// upload / max(1, total_done) ratio
    pub ratio: Real64,
    /// seconds spent seeding
    pub seeding_time: i64,
}

/// One message of the session.
#[derive(Debug, Clone, PartialEq, Eq)]
pub struct AlertInfo {
    pub timestamp: i64,
    pub category: String,
    pub message: String,
    pub alert_type: String,
}

/// One file of a torrent.
#[derive(Debug, Clone, PartialEq, Eq)]
pub struct TorrentFile {
    pub path: String,
    pub size: i64,
    pub offset: i64,
}

/// One tracker of a torrent.
#[derive(Debug, Clone, PartialEq, Eq)]
pub struct TorrentTracker {
    pub url: String,
    pub tier: i32,
    pub verified: bool,
    pub updating: bool,
    pub fails: i32,
    /// libtorrent message for the last failure (empty when ok)
    pub message: String,
}

/// Resume data of one torrent, ready to be written to disk.
#[derive(Debug, Clone, PartialEq, Eq)]
pub struct PendingResume {
    pub info_hash: String,
    pub bytes: Vec<u8>,
}

/// Counters of the whole session. Torrents are counted from the daemon's own list.
#[derive(Debug, Clone, PartialEq, Eq)]
pub struct SessionStats {
    pub total_download: i64,
    pub total_upload: i64,
    pub download_rate: i64,
    pub upload_rate: i64,
    pub total_dht_nodes: i64,
    pub num_peers: i32,
}

/// Everything of the session that can be configured, in one flat record.
#[derive(Debug, Clone, PartialEq, Eq)]
pub struct SessionSettings {
    pub max_uploads: i32,
    pub max_connections: i32,
    /// bytes/sec (0 = unlimited)
    pub download_rate_limit: i32,
    /// bytes/sec (0 = unlimited)
    pub upload_rate_limit: i32,
    pub enable_dht: bool,
    pub enable_lsd: bool,
    pub enable_upnp: bool,
    pub enable_natpmp: bool,
    pub anonymous_mode: bool,
    /// 0=forced, 1=enabled (prefer enc), 2=disabled
    pub encryption_out_policy: i32,
    pub encryption_in_policy: i32,
    pub enable_incoming_utp: bool,
    pub enable_outgoing_utp: bool,
    pub announce_to_all_trackers: bool,
    pub announce_to_all_tiers: bool,
    pub ssrf_mitigation: bool,
    pub validate_https_trackers: bool,
    pub max_active_downloads: i32,
    pub max_active_uploads: i32,
    pub max_active_torrents: i32,
    /// stop seeding above this ratio. 0.0 = unlimited.
    pub seed_ratio_limit: Real64,
    /// stop seeding after this many minutes. 0 = unlimited.
    pub seed_time_limit: i32,
    /// libtorrent proxy_type: 0=none, 1=socks4, 2=socks5, 3=socks5_pw,
    /// 4=http, 5=http_pw, 6=i2p_proxy
    pub proxy_type: i32,
    pub proxy_hostname: String,
    pub proxy_port: i32,
    pub proxy_username: String,
    pub proxy_password: String,
    pub proxy_peer_connections: bool,
    pub proxy_tracker_connections: bool,
}

} // verus!
