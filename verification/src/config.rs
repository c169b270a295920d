//! The configuration: its values, what they may be, and how one is set by its key.

use crate::binary64::Real64;
use crate::names::NameMap;
use crate::paths::{below, path_below};
use crate::text::{is_empty, opt_text, same, texts, trim, trim_back_char, trimmed, trimmed_end_of};
use vstd::prelude::*;

verus! {

/// Everything that can be configured.
#[derive(Debug, Clone, PartialEq, Eq)]
pub struct Config {
    /// legacy: single ip-or-name. preserved for migration. when
    /// `listen_interfaces` is non-empty, this field is ignored.
    pub listen_address: String,
    /// list of interface names (e.g. "tun0", "wlan0") OR ip addresses.
    /// each entry is resolved to its current ip at session start via
    /// getifaddrs and the union is comma-joined for libtorrent. when
    /// empty, the daemon falls back to `listen_address`.
    pub listen_interfaces: Vec<String>,
    pub listen_port: u16,
    /// upload slot limit (-1 = unlimited)
    pub max_uploads: i32,
    pub max_connections: i32,
    /// download cap in KiB/s (0 = unlimited)
    pub download_rate_limit: i32,
    /// upload cap in KiB/s (0 = unlimited)
    pub upload_rate_limit: i32,
    pub default_save_path: String,
    /// default content layout for new torrents: always | never | if_multiple
    pub default_content_layout: String,
    /// most-recently-used save paths, front = most recent. written by the
    /// daemon on successful add-with-explicit-path and on successful move.
    pub recent_save_paths: Vec<String>,
    /// how many recent save paths to keep. 0 disables recording and the picker.
    pub recent_paths_limit: u16,
    /// confirm merging a rename into a folder already holding this torrent's files
    pub rename_merge_same: String,
    /// confirm merging into an on-disk folder that also holds unrelated files
    pub rename_merge_unrelated: String,
    /// what to do with untracked files inside a renamed folder
    pub rename_untracked_files: String,
    /// show the per-entry results overlay after adding torrents: always | never
    pub add_result_review: String,
    pub enable_dht: bool,
    pub enable_lsd: bool,
    pub enable_upnp: bool,
    pub enable_natpmp: bool,
    /// re-add saved torrents on daemon start
    pub auto_resume: bool,
    /// strip identifying info from peer/tracker connections (disables PEX, DHT announce)
    pub anonymous_mode: bool,
    /// protocol encryption: "enabled" (prefer), "forced" (require), "disabled"
    pub encryption_mode: String,
    /// reject tracker responses that redirect to private/local addresses
    pub ssrf_mitigation: bool,
    /// verify TLS certificates for HTTPS trackers
    pub validate_https_tracker_certificate: bool,
    pub enable_incoming_utp: bool,
    pub enable_outgoing_utp: bool,
    /// announce to every tracker in the list rather than stopping at first success
    pub announce_to_all_trackers: bool,
    /// announce to all tiers even when a tracker in an earlier tier succeeds
    pub announce_to_all_tiers: bool,
    pub max_active_downloads: i32,
    pub max_active_uploads: i32,
    pub max_active_torrents: i32,
    pub seed_ratio_limit: Real64,
    /// stop seeding after this many minutes (0 = unlimited)
    pub seed_time_limit: i32,
    /// action when a seed limit is hit: "pause" or "remove"
    pub seed_ratio_action: String,
    /// proxy type: "none", "socks4", "socks5", "socks5_pw", "http",
    /// "http_pw", "i2p". when set to anything but "none", the daemon will
    /// probe the proxy at startup and refuse to start if unreachable.
    pub proxy_type: String,
    pub proxy_host: String,
    pub proxy_port: u16,
    pub proxy_username: String,
    pub proxy_password: String,
    /// proxy peer-to-peer connections (not just tracker traffic)
    pub proxy_peer_connections: bool,
    /// proxy tracker (announce/scrape) connections
    pub proxy_tracker_connections: bool,
    /// local path to an ip filter (PeerGuardian P2P format or CIDR lines).
    /// loaded on every daemon start.
    pub ip_filter_path: String,
    /// optional URL fetched at startup (and refreshed every refresh interval)
    /// and stored at ip_filter_path. unsafe TLS cert validation is never done.
    pub ip_filter_url: String,
    pub ip_filter_refresh_hours: u64,
    /// directories scanned every ~5s for new .torrent files. matches are
    /// auto-added and the file is renamed `.loaded` to prevent re-adding.
    pub watch_directories: Vec<String>,
    /// optional command run when any torrent finishes. invoked with these
    /// env vars: MONSOON_TORRENT_NAME, MONSOON_TORRENT_HASH, MONSOON_SAVE_PATH,
    /// MONSOON_TOTAL_SIZE, MONSOON_CATEGORY (when set).
    pub completion_script: Option<String>,
    /// kill the completion script if it runs longer than this
    pub completion_script_timeout_seconds: u64,
    pub tui_show_sidebar: bool,
    pub tui_show_detail: bool,
    pub tui_sidebar_width: u16,
    pub tui_detail_split_percent: u16,
    /// ordered list of column keys visible in the torrent list. empty means
    /// "use built-in defaults". valid keys live in tui::columns.
    pub tui_columns: Vec<String>,
    /// per-column width overrides for the torrent list, written by the
    /// mouse-driven drag-to-resize. format is "column_key=cells". columns
    /// without an entry use their built-in default width.
    pub tui_column_widths: NameMap<u16>,
    /// when true, the tui renders nerd font glyphs instead of
    /// ascii state labels. off by default so users without a nerd-font
    /// terminal see legible text instead of tofu.
    pub tui_nerd_font: bool,
    /// when true, a desktop notification is sent via notify-send when a
    /// torrent finishes downloading. silently ignored if notify-send is not
    /// installed.
    pub notifications_enabled: bool,
    /// optional TCP listen address for remote control (e.g. "0.0.0.0:6890"
    /// or "127.0.0.1:6890"). when set, the daemon also accepts TLS-wrapped
    /// json-line connections. plaintext is never accepted, even on localhost.
    /// the unix socket remains active for local clients.
    pub network_listen_address: String,
    /// shared-secret token clients must send (`AUTH <token>\n`) before any
    /// other command. generated on first start when `network_listen_address`
    /// is set and persisted here for future reads.
    pub network_auth_token: String,
    /// path to the TLS cert (PEM). a self-signed cert is generated on first
    /// start when this is empty.
    pub network_cert_path: String,
    /// path to the TLS private key (PEM).
    pub network_key_path: String,
}

// ----- recently used paths -----

/// A path without the white space around it and the slashes behind it; a bare slash stays.
pub open spec fn normal_path(path: Seq<char>) -> Seq<char> {
    if trim(path) == "/"@ {
        "/"@
    } else {
        trim_back_char(trim(path), '/')
    }
}

/// The list without any `x`.
pub open spec fn without(list: Seq<Seq<char>>, x: Seq<char>) -> Seq<Seq<char>>
    decreases list.len(),
{
    if list.len() == 0 {
        list
    } else if list.last() == x {
        without(list.drop_last(), x)
    } else {
        without(list.drop_last(), x).push(list.last())
    }
}

/// The first `n` entries, or all where there are fewer.
pub open spec fn at_most(list: Seq<Seq<char>>, n: int) -> Seq<Seq<char>> {
    if n < list.len() {
        list.take(n)
    } else {
        list
    }
}

/// The list of recent paths after `path` was used.
pub open spec fn recorded(list: Seq<Seq<char>>, path: Seq<char>, limit: int) -> Seq<Seq<char>> {
    let normal = normal_path(path);
    if normal.len() == 0 {
        list
    } else {
        at_most(seq![normal] + without(list, normal), limit)
    }
}

/// Moves a path to the front of the list of recent paths, then cuts the list to the limit; a
/// limit of 0 clears it. The path is noted without the white space around it and the slashes
/// behind it, so that two spellings of one folder are one entry. A blank path changes nothing.
pub fn record_recent_path(list: &mut Vec<String>, path: &str, limit: u16)
    ensures
        texts(final(list)@) == recorded(texts(old(list)@), path@, limit as int),
{
    let bare = trimmed(path);
    let normal = if same(bare.as_str(), "/") {
        bare
    } else {
        trimmed_end_of(bare.as_str(), '/')
    };
    if is_empty(normal.as_str()) {
        return;
    }
    let ghost before = texts(list@);
    let mut kept: Vec<String> = Vec::new();
    kept.push(normal.clone());
    let mut i: usize = 0;
    assert(texts(kept@) =~= seq![normal@] + without(before.take(0), normal@));
    while i < list.len()
        invariant
            i <= list@.len(),
            before == texts(list@),
            texts(kept@) == seq![normal@] + without(before.take(i as int), normal@),
        decreases list@.len() - i,
    {
        let ghost prior = kept@;
        proof {
            let next = before.take(i as int + 1);
            assert(next.drop_last() =~= before.take(i as int));
            assert(next.last() == list@[i as int]@);
        }
        if !same(list[i].as_str(), normal.as_str()) {
            kept.push(list[i].clone());
            assert(texts(kept@) =~= texts(prior).push(list@[i as int]@));
        }
        assert(texts(kept@) =~= seq![normal@] + without(before.take(i as int + 1), normal@));
        i = i + 1;
    }
    assert(before.take(before.len() as int) =~= before);
    let ghost full = texts(kept@);
    kept.truncate(limit as usize);
    assert(texts(kept@) =~= at_most(full, limit as int));
    *list = kept;
}

/// The path that was used last stands first, the list keeps to its limit, and holds no path
/// twice if it did not before.
pub proof fn law_recent_paths(list: Seq<Seq<char>>, path: Seq<char>, limit: int)
    requires
        normal_path(path).len() > 0,
        limit >= 0,
    ensures
        recorded(list, path, limit).len() <= limit,
        limit > 0 ==> recorded(list, path, limit)[0] == normal_path(path),
        limit == 0 ==> recorded(list, path, limit).len() == 0,
        list.no_duplicates() ==> recorded(list, path, limit).no_duplicates(),
{
    let n = normal_path(path);
    lemma_without(list, n);
    let rest = without(list, n);
    let full = seq![n] + rest;
    if list.no_duplicates() {
        assert forall|i: int, j: int| 0 <= i < full.len() && 0 <= j < full.len() && i != j implies full[i]
            != full[j] by {
            if i > 0 {
                assert(rest.contains(full[i])) by {
                    assert(rest[i - 1] == full[i]);
                }
            }
            if j > 0 {
                assert(rest.contains(full[j])) by {
                    assert(rest[j - 1] == full[j]);
                }
            }
        }
    }
}

/// Using the same path twice in a row is the same as using it once.
pub proof fn law_recording_twice_is_recording_once(
    list: Seq<Seq<char>>,
    path: Seq<char>,
    limit: int,
)
    requires
        limit >= 0,
    ensures
        recorded(recorded(list, path, limit), path, limit) == recorded(list, path, limit),
{
    let n = normal_path(path);
    if n.len() > 0 {
        lemma_without(list, n);
        let rest = without(list, n);
        let once = recorded(list, path, limit);
        if limit > 0 {
            let tail = once.skip(1);
            assert(once =~= seq![n] + tail);
            assert forall|i: int| 0 <= i < tail.len() implies tail[i] != n by {
                assert(tail[i] == rest[i]);
                assert(rest.contains(rest[i]));
            }
            lemma_without_front(tail, n);
            assert(recorded(once, path, limit) =~= once);
        } else {
            assert(once =~= Seq::<Seq<char>>::empty());
            assert(recorded(once, path, limit) =~= once);
        }
    }
}

/// What remains without `x` is in the list, is not `x`, and repeats nothing new.
proof fn lemma_without(list: Seq<Seq<char>>, x: Seq<char>)
    ensures
        !without(list, x).contains(x),
        forall|y: Seq<char>| #[trigger] without(list, x).contains(y) ==> list.contains(y),
        list.no_duplicates() ==> without(list, x).no_duplicates(),
    decreases list.len(),
{
    if list.len() > 0 {
        let init = list.drop_last();
        lemma_without(init, x);
        let w = without(init, x);
        let all = without(list, x);
        assert forall|y: Seq<char>| all.contains(y) implies list.contains(y) by {
            let k = all.index_of(y);
            if k < w.len() {
                assert(w[k] == y);
                assert(w.contains(y));
                let m = init.index_of(y);
                assert(list[m] == y);
            } else {
                assert(list[list.len() - 1] == y);
            }
        }
        if all.contains(x) {
            let k = all.index_of(x);
            assert(k < w.len());
            assert(w[k] == x);
        }
        if list.no_duplicates() {
            assert(init.no_duplicates());
            if list.last() != x {
                assert forall|i: int, j: int|
                    0 <= i < all.len() && 0 <= j < all.len() && i != j implies all[i] != all[j] by {
                    let p = if i < w.len() { i } else { j };
                    let q = if i < w.len() { j } else { i };
                    if q == w.len() {
                        assert(w[p] == all[p]);
                        assert(w.contains(all[p]));
                        let m = init.index_of(all[p]);
                        assert(list[m] != list[list.len() - 1]);
                    }
                }
            }
        }
    }
}

/// Taking `x` out of a list that holds it only in front leaves the rest.
proof fn lemma_without_front(tail: Seq<Seq<char>>, x: Seq<char>)
    requires
        forall|i: int| 0 <= i < tail.len() ==> tail[i] != x,
    ensures
        without(seq![x] + tail, x) == tail,
    decreases tail.len(),
{
    let full = seq![x] + tail;
    if tail.len() > 0 {
        lemma_without_front(tail.drop_last(), x);
        assert(full.drop_last() =~= seq![x] + tail.drop_last());
        assert(full.last() == tail[tail.len() - 1]);
        assert(tail.drop_last().push(tail.last()) =~= tail);
    } else {
        assert(full.drop_last() =~= Seq::<Seq<char>>::empty());
        assert(full.last() == x);
        assert(without(full.drop_last(), x) =~= tail);
    }
}

// ----- words that settings know -----

/// A word that the seed limit action knows.
pub open spec fn seed_action_word(s: Seq<char>) -> bool {
    s == "pause"@ || s == "remove"@
}

/// Whether the seed limit action knows the word.
pub fn is_seed_action_word(s: &str) -> (r: bool)
    ensures
        r == seed_action_word(s@),
{
    same(s, "pause") || same(s, "remove")
}

/// A word that the encryption mode knows.
pub open spec fn encryption_mode_word(s: Seq<char>) -> bool {
    s == "enabled"@ || s == "forced"@ || s == "disabled"@
}

/// Whether the encryption mode knows the word.
pub fn is_encryption_mode_word(s: &str) -> (r: bool)
    ensures
        r == encryption_mode_word(s@),
{
    same(s, "enabled") || same(s, "forced") || same(s, "disabled")
}

/// A word that the proxy type knows.
pub open spec fn proxy_type_word(s: Seq<char>) -> bool {
    s == "none"@ || s == "socks4"@ || s == "socks5"@ || s == "socks5_pw"@ || s == "http"@ || s == "http_pw"@ || s == "i2p"@
}

/// Whether the proxy type knows the word.
pub fn is_proxy_type_word(s: &str) -> (r: bool)
    ensures
        r == proxy_type_word(s@),
{
    same(s, "none") || same(s, "socks4") || same(s, "socks5") || same(s, "socks5_pw") || same(s, "http") || same(s, "http_pw") || same(s, "i2p")
}

/// A word that the review setting knows.
pub open spec fn review_word(s: Seq<char>) -> bool {
    s == "always"@ || s == "never"@
}

/// Whether the review setting knows the word.
pub fn is_review_word(s: &str) -> (r: bool)
    ensures
        r == review_word(s@),
{
    same(s, "always") || same(s, "never")
}

/// A word that the content layout setting knows.
pub open spec fn layout_word(s: Seq<char>) -> bool {
    s == "always"@ || s == "never"@ || s == "if_multiple"@
}

/// Whether the content layout setting knows the word.
pub fn is_layout_word(s: &str) -> (r: bool)
    ensures
        r == layout_word(s@),
{
    same(s, "always") || same(s, "never") || same(s, "if_multiple")
}

/// A word that the merge setting knows.
pub open spec fn merge_word(s: Seq<char>) -> bool {
    s == "always"@ || s == "ask"@
}

/// Whether the merge setting knows the word.
pub fn is_merge_word(s: &str) -> (r: bool)
    ensures
        r == merge_word(s@),
{
    same(s, "always") || same(s, "ask")
}

/// A word that the setting for untracked files knows.
pub open spec fn untracked_word(s: Seq<char>) -> bool {
    s == "always_move"@ || s == "always_leave"@ || s == "ask"@
}

/// Whether the setting for untracked files knows the word.
pub fn is_untracked_word(s: &str) -> (r: bool)
    ensures
        r == untracked_word(s@),
{
    same(s, "always_move") || same(s, "always_leave") || same(s, "ask")
}

// ----- defaults -----

/// Where downloads go by default: `Downloads` in the home folder, or here where there is none.
pub open spec fn downloads_path(home: Option<Seq<char>>) -> Seq<char> {
    match home {
        Some(folder) => below(folder, "Downloads"@),
        None => "."@,
    }
}

/// The values of a fresh configuration that saves to `save_path`.
pub open spec fn is_default(c: Config, save_path: Seq<char>) -> bool {
    &&& c.listen_address@ == "0.0.0.0"@
    &&& c.listen_interfaces@ == Seq::<String>::empty()
    &&& c.listen_port == 6881
    &&& c.max_uploads == -1
    &&& c.max_connections == 200
    &&& c.download_rate_limit == 0
    &&& c.upload_rate_limit == 0
    &&& c.default_save_path@ == save_path
    &&& c.default_content_layout@ == "if_multiple"@
    &&& c.recent_save_paths@ == Seq::<String>::empty()
    &&& c.recent_paths_limit == 5
    &&& c.rename_merge_same@ == "ask"@
    &&& c.rename_merge_unrelated@ == "ask"@
    &&& c.rename_untracked_files@ == "ask"@
    &&& c.add_result_review@ == "always"@
    &&& c.enable_dht
    &&& c.enable_lsd
    &&& c.enable_upnp
    &&& c.enable_natpmp
    &&& c.auto_resume
    &&& !c.anonymous_mode
    &&& c.encryption_mode@ == "enabled"@
    &&& c.ssrf_mitigation
    &&& c.validate_https_tracker_certificate
    &&& c.enable_incoming_utp
    &&& c.enable_outgoing_utp
    &&& !c.announce_to_all_trackers
    &&& c.announce_to_all_tiers
    &&& c.max_active_downloads == 3
    &&& c.max_active_uploads == 5
    &&& c.max_active_torrents == 8
    &&& c.seed_ratio_limit.bits == 0
    &&& c.seed_time_limit == 0
    &&& c.seed_ratio_action@ == "pause"@
    &&& c.proxy_type@ == "none"@
    &&& c.proxy_host@ == Seq::<char>::empty()
    &&& c.proxy_port == 0
    &&& c.proxy_username@ == Seq::<char>::empty()
    &&& c.proxy_password@ == Seq::<char>::empty()
    &&& c.proxy_peer_connections
    &&& c.proxy_tracker_connections
    &&& c.ip_filter_path@ == Seq::<char>::empty()
    &&& c.ip_filter_url@ == Seq::<char>::empty()
    &&& c.ip_filter_refresh_hours == 24
    &&& c.watch_directories@ == Seq::<String>::empty()
    &&& c.completion_script is None
    &&& c.completion_script_timeout_seconds == 60
    &&& !c.tui_show_sidebar
    &&& !c.tui_show_detail
    &&& c.tui_sidebar_width == 22
    &&& c.tui_detail_split_percent == 40
    &&& c.tui_columns@ == Seq::<String>::empty()
    &&& c.tui_column_widths.wf() && c.tui_column_widths.list() == Seq::<Seq<char>>::empty()
    &&& !c.tui_nerd_font
    &&& c.notifications_enabled
    &&& c.network_listen_address@ == Seq::<char>::empty()
    &&& c.network_auth_token@ == Seq::<char>::empty()
    &&& c.network_cert_path@ == Seq::<char>::empty()
    &&& c.network_key_path@ == Seq::<char>::empty()
}

/// `directories::BaseDirs::new` and `BaseDirs::home_dir`: the user's home folder, as the
/// environment gives it. Nothing is promised of it.
#[verifier::external_body]
pub(crate) fn home_folder() -> (r: Option<String>) {
    directories::BaseDirs::new().map(|dirs| dirs.home_dir().to_string_lossy().to_string())
}

impl Default for Config {
    /// The default configuration for the user's home folder.
    fn default() -> (r: Self)
        ensures
            exists|home: Option<Seq<char>>| is_default(r, #[trigger] downloads_path(home)),
    {
        let home = home_folder();
        let ghost h = opt_text(home);
        let r = Config::with_home(home);
        assert(is_default(r, downloads_path(h)));
        r
    }
}

/// `after` is `before` with every value that is out of its range replaced by the one of
/// `default`, and with the recent paths cut to their limit.
pub open spec fn healed(before: Config, after: Config, default: Config) -> bool {
    &&& after.listen_address == (if trim(before.listen_address@).len() > 0 { before.listen_address } else { default.listen_address })
    &&& after.max_uploads == (if before.max_uploads >= -1 { before.max_uploads } else { default.max_uploads })
    &&& after.max_connections == (if before.max_connections >= -1 { before.max_connections } else { default.max_connections })
    &&& after.download_rate_limit == (if before.download_rate_limit >= 0 { before.download_rate_limit } else { default.download_rate_limit })
    &&& after.upload_rate_limit == (if before.upload_rate_limit >= 0 { before.upload_rate_limit } else { default.upload_rate_limit })
    &&& after.default_save_path == (if trim(before.default_save_path@).len() > 0 { before.default_save_path } else { default.default_save_path })
    &&& after.default_content_layout == (if layout_word(before.default_content_layout@) { before.default_content_layout } else { default.default_content_layout })
    &&& after.rename_merge_same == (if merge_word(before.rename_merge_same@) { before.rename_merge_same } else { default.rename_merge_same })
    &&& after.rename_merge_unrelated == (if merge_word(before.rename_merge_unrelated@) { before.rename_merge_unrelated } else { default.rename_merge_unrelated })
    &&& after.rename_untracked_files == (if untracked_word(before.rename_untracked_files@) { before.rename_untracked_files } else { default.rename_untracked_files })
    &&& after.add_result_review == (if review_word(before.add_result_review@) { before.add_result_review } else { default.add_result_review })
    &&& after.encryption_mode == (if encryption_mode_word(before.encryption_mode@) { before.encryption_mode } else { default.encryption_mode })
    &&& after.max_active_downloads == (if before.max_active_downloads >= -1 { before.max_active_downloads } else { default.max_active_downloads })
    &&& after.max_active_uploads == (if before.max_active_uploads >= -1 { before.max_active_uploads } else { default.max_active_uploads })
    &&& after.max_active_torrents == (if before.max_active_torrents >= -1 { before.max_active_torrents } else { default.max_active_torrents })
    &&& after.seed_ratio_limit == (if (before.seed_ratio_limit.is_nan() || before.seed_ratio_limit.rank() >= 0) { before.seed_ratio_limit } else { default.seed_ratio_limit })
    &&& after.seed_time_limit == (if before.seed_time_limit >= 0 { before.seed_time_limit } else { default.seed_time_limit })
    &&& after.seed_ratio_action == (if seed_action_word(before.seed_ratio_action@) { before.seed_ratio_action } else { default.seed_ratio_action })
    &&& after.proxy_type == (if proxy_type_word(before.proxy_type@) { before.proxy_type } else { default.proxy_type })
    &&& after.tui_sidebar_width == (if before.tui_sidebar_width >= 8 { before.tui_sidebar_width } else { default.tui_sidebar_width })
    &&& after.tui_detail_split_percent == (if 10 <= before.tui_detail_split_percent <= 90 { before.tui_detail_split_percent } else { default.tui_detail_split_percent })
    &&& after.recent_save_paths@ == (if before.recent_paths_limit < before.recent_save_paths@.len() {
        before.recent_save_paths@.take(before.recent_paths_limit as int)
    } else {
        before.recent_save_paths@
    })
    &&& after == (Config { listen_address: after.listen_address, max_uploads: after.max_uploads, max_connections: after.max_connections, download_rate_limit: after.download_rate_limit, upload_rate_limit: after.upload_rate_limit, default_save_path: after.default_save_path, default_content_layout: after.default_content_layout, rename_merge_same: after.rename_merge_same, rename_merge_unrelated: after.rename_merge_unrelated, rename_untracked_files: after.rename_untracked_files, add_result_review: after.add_result_review, encryption_mode: after.encryption_mode, max_active_downloads: after.max_active_downloads, max_active_uploads: after.max_active_uploads, max_active_torrents: after.max_active_torrents, seed_ratio_limit: after.seed_ratio_limit, seed_time_limit: after.seed_time_limit, seed_ratio_action: after.seed_ratio_action, proxy_type: after.proxy_type, tui_sidebar_width: after.tui_sidebar_width, tui_detail_split_percent: after.tui_detail_split_percent, recent_save_paths: after.recent_save_paths, ..before })
}

/// The value where it is large enough, else the default.
fn at_least_or(value: i32, least: i32, default: i32) -> (r: i32)
    ensures
        r == (if value >= least { value } else { default }),
{
    if value < least {
        default
    } else {
        value
    }
}

/// The value where it is to be kept, else the default.
fn kept_if(keep: bool, value: &String, default: &String) -> (r: String)
    ensures
        r == (if keep { *value } else { *default }),
{
    if keep {
        value.clone()
    } else {
        default.clone()
    }
}

/// Whether the text holds white space at most.
pub fn is_blank(s: &str) -> (r: bool)
    ensures
        r == (trim(s@).len() == 0),
{
    let bare = trimmed(s);
    is_empty(bare.as_str())
}

impl Config {
    /// Every value is in its range.
    pub open spec fn valid(self) -> bool {
        &&& trim(self.listen_address@).len() > 0
        &&& self.max_uploads >= -1
        &&& self.max_connections >= -1
        &&& self.download_rate_limit >= 0
        &&& self.upload_rate_limit >= 0
        &&& trim(self.default_save_path@).len() > 0
        &&& layout_word(self.default_content_layout@)
        &&& merge_word(self.rename_merge_same@)
        &&& merge_word(self.rename_merge_unrelated@)
        &&& untracked_word(self.rename_untracked_files@)
        &&& review_word(self.add_result_review@)
        &&& encryption_mode_word(self.encryption_mode@)
        &&& self.max_active_downloads >= -1
        &&& self.max_active_uploads >= -1
        &&& self.max_active_torrents >= -1
        &&& (self.seed_ratio_limit.is_nan() || self.seed_ratio_limit.rank() >= 0)
        &&& self.seed_time_limit >= 0
        &&& seed_action_word(self.seed_ratio_action@)
        &&& proxy_type_word(self.proxy_type@)
        &&& self.tui_sidebar_width >= 8
        &&& 10 <= self.tui_detail_split_percent <= 90
        &&& self.recent_save_paths@.len() <= self.recent_paths_limit
    }

    /// The default configuration of a user with that home folder.
    pub fn with_home(home: Option<String>) -> (r: Config)
        ensures
            is_default(r, downloads_path(opt_text(home))),
    {
        let save_path = match home {
            Some(folder) => path_below(folder.as_str(), "Downloads"),
            None => ".".to_owned(),
        };
        Config {
            listen_address: "0.0.0.0".to_owned(),
            listen_interfaces: Vec::new(),
            listen_port: 6881,
            max_uploads: -1,
            max_connections: 200,
            download_rate_limit: 0,
            upload_rate_limit: 0,
            default_save_path: save_path,
            default_content_layout: "if_multiple".to_owned(),
            recent_save_paths: Vec::new(),
            recent_paths_limit: 5,
            rename_merge_same: "ask".to_owned(),
            rename_merge_unrelated: "ask".to_owned(),
            rename_untracked_files: "ask".to_owned(),
            add_result_review: "always".to_owned(),
            enable_dht: true,
            enable_lsd: true,
            enable_upnp: true,
            enable_natpmp: true,
            auto_resume: true,
            anonymous_mode: false,
            encryption_mode: "enabled".to_owned(),
            ssrf_mitigation: true,
            validate_https_tracker_certificate: true,
            enable_incoming_utp: true,
            enable_outgoing_utp: true,
            announce_to_all_trackers: false,
            announce_to_all_tiers: true,
            max_active_downloads: 3,
            max_active_uploads: 5,
            max_active_torrents: 8,
            seed_ratio_limit: Real64::zero(),
            seed_time_limit: 0,
            seed_ratio_action: "pause".to_owned(),
            proxy_type: "none".to_owned(),
            proxy_host: String::new(),
            proxy_port: 0,
            proxy_username: String::new(),
            proxy_password: String::new(),
            proxy_peer_connections: true,
            proxy_tracker_connections: true,
            ip_filter_path: String::new(),
            ip_filter_url: String::new(),
            ip_filter_refresh_hours: 24,
            watch_directories: Vec::new(),
            completion_script: None,
            completion_script_timeout_seconds: 60,
            tui_show_sidebar: false,
            tui_show_detail: false,
            tui_sidebar_width: 22,
            tui_detail_split_percent: 40,
            tui_columns: Vec::new(),
            tui_column_widths: NameMap::new(),
            tui_nerd_font: false,
            notifications_enabled: true,
            network_listen_address: String::new(),
            network_auth_token: String::new(),
            network_cert_path: String::new(),
            network_key_path: String::new(),
        }
    }

    /// Replaces each value that is out of its range by the default one: numbers below their
    /// least value, and words that the setting does not know. -1 stays where it means
    /// "unlimited".
    pub fn sanitize(&mut self)
        ensures
            exists|default: Config, home: Option<Seq<char>>|
                is_default(default, #[trigger] downloads_path(home)) && #[trigger] healed(*old(self), *final(self), default),
    {
        let default = Config::default();
        self.sanitize_with(&default);
        assert(healed(*old(self), *self, default));
    }

    /// Replaces each value that is out of its range by the one of `default`.
    pub fn sanitize_with(&mut self, default: &Config)
        ensures
            healed(*old(self), *final(self), *default),
    {
        let mut taken = Config::with_home(None);
        core::mem::swap(self, &mut taken);
        let after = taken.into_healed(default);
        *self = after;
    }

    /// The configuration with each value that is out of its range replaced by the one of
    /// `default`.
    fn into_healed(self, default: &Config) -> (r: Config)
        ensures
            healed(self, r, *default),
    {
        let max_connections: i32 = at_least_or(self.max_connections, -1, default.max_connections);
        let max_uploads: i32 = at_least_or(self.max_uploads, -1, default.max_uploads);
        let max_active_downloads: i32 = at_least_or(self.max_active_downloads, -1, default.max_active_downloads);
        let max_active_uploads: i32 = at_least_or(self.max_active_uploads, -1, default.max_active_uploads);
        let max_active_torrents: i32 = at_least_or(self.max_active_torrents, -1, default.max_active_torrents);
        let download_rate_limit: i32 = at_least_or(self.download_rate_limit, 0, default.download_rate_limit);
        let upload_rate_limit: i32 = at_least_or(self.upload_rate_limit, 0, default.upload_rate_limit);
        let seed_time_limit: i32 = at_least_or(self.seed_time_limit, 0, default.seed_time_limit);
        let seed_ratio_action: String = kept_if(is_seed_action_word(self.seed_ratio_action.as_str()), &self.seed_ratio_action, &default.seed_ratio_action);
        let encryption_mode: String = kept_if(is_encryption_mode_word(self.encryption_mode.as_str()), &self.encryption_mode, &default.encryption_mode);
        let proxy_type: String = kept_if(is_proxy_type_word(self.proxy_type.as_str()), &self.proxy_type, &default.proxy_type);
        let add_result_review: String = kept_if(is_review_word(self.add_result_review.as_str()), &self.add_result_review, &default.add_result_review);
        let default_content_layout: String = kept_if(is_layout_word(self.default_content_layout.as_str()), &self.default_content_layout, &default.default_content_layout);
        let rename_merge_same: String = kept_if(is_merge_word(self.rename_merge_same.as_str()), &self.rename_merge_same, &default.rename_merge_same);
        let rename_merge_unrelated: String = kept_if(is_merge_word(self.rename_merge_unrelated.as_str()), &self.rename_merge_unrelated, &default.rename_merge_unrelated);
        let rename_untracked_files: String = kept_if(is_untracked_word(self.rename_untracked_files.as_str()), &self.rename_untracked_files, &default.rename_untracked_files);
        let listen_address: String = kept_if(!is_blank(self.listen_address.as_str()), &self.listen_address, &default.listen_address);
        let default_save_path: String = kept_if(!is_blank(self.default_save_path.as_str()), &self.default_save_path, &default.default_save_path);
        let seed_ratio_limit = if self.seed_ratio_limit.is_negative() {
            default.seed_ratio_limit
        } else {
            self.seed_ratio_limit
        };
        let tui_sidebar_width: u16 = if self.tui_sidebar_width < 8 {
            default.tui_sidebar_width
        } else {
            self.tui_sidebar_width
        };
        let tui_detail_split_percent: u16 = if self.tui_detail_split_percent < 10
            || self.tui_detail_split_percent > 90 {
            default.tui_detail_split_percent
        } else {
            self.tui_detail_split_percent
        };
        let mut recent_save_paths = self.recent_save_paths;
        let limit: usize = self.recent_paths_limit as usize;
        if limit < recent_save_paths.len() {
            recent_save_paths.truncate(limit);
        }
        Config {
            max_connections,
            max_uploads,
            max_active_downloads,
            max_active_uploads,
            max_active_torrents,
            download_rate_limit,
            upload_rate_limit,
            seed_time_limit,
            seed_ratio_action,
            encryption_mode,
            proxy_type,
            add_result_review,
            default_content_layout,
            rename_merge_same,
            rename_merge_unrelated,
            rename_untracked_files,
            listen_address,
            default_save_path,
            seed_ratio_limit,
            tui_sidebar_width,
            tui_detail_split_percent,
            recent_save_paths,
            ..self
        }
    }
}

/// Healing with valid defaults gives a valid configuration, and a valid one stays as it is.
pub proof fn law_sanitize_heals(before: Config, after: Config, default: Config)
    requires
        healed(before, after, default),
        default.valid(),
    ensures
        after.valid(),
        before.valid() ==> after == (Config { recent_save_paths: after.recent_save_paths, ..before })
            && after.recent_save_paths@ == before.recent_save_paths@,
{
}

/// The default configuration is valid, wherever it saves to.
pub proof fn law_default_is_valid(c: Config, save_path: Seq<char>)
    requires
        is_default(c, save_path),
        trim(save_path).len() > 0,
    ensures
        c.valid(),
{
    reveal_strlit("0.0.0.0");
    let s = "0.0.0.0"@;
    assert(crate::text::trim_front(s) == s);
    assert(crate::text::trim_back(s) == s);
}

} // verus!
