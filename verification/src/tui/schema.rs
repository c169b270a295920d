//! What can be set on the settings page, and what each setting holds.

use crate::config::Config;
use crate::text::{decimal, decimal_i64, decimal_u64, same};
use vstd::prelude::*;

verus! {

/// How many settings there are.
pub const FIELD_COUNT: usize = 33;

/// How many tabs the settings are spread over.
pub const TAB_COUNT: usize = 6;

/// The words that a setting goes through.
#[derive(Clone, Copy, Debug, PartialEq, Eq, Structural)]
pub enum Choice {
    Encryption,
    Proxy,
}

/// How a setting is shown and changed.
#[derive(Clone, Copy, Debug, PartialEq, Eq, Structural)]
pub enum FieldKind {
    Bool,
    Integer,
    /// an integer for which -1 means unlimited and 0 none
    IntegerUnlimited,
    Float,
    Text,
    /// one of a few words; each press takes the next
    Choice(Choice),
    /// a network interface, picked from a list
    Interface,
}

/// The words of a choice, in order.
pub open spec fn options(choice: Choice) -> Seq<Seq<char>> {
    match choice {
        Choice::Encryption => seq!["enabled"@, "forced"@, "disabled"@],
        Choice::Proxy => seq!["none"@, "socks4"@, "socks5"@, "socks5_pw"@, "http"@, "http_pw"@, "i2p"@],
    }
}

/// The words of a choice, in order.
pub fn choice_options(choice: Choice) -> (r: Vec<&'static str>)
    ensures
        crate::textfield::slice_texts(r@) == options(choice),
        r@.len() > 0,
{
    let mut out: Vec<&'static str> = Vec::new();
    match choice {
        Choice::Encryption => {
            out.push("enabled");
            out.push("forced");
            out.push("disabled");
        },
        Choice::Proxy => {
            out.push("none");
            out.push("socks4");
            out.push("socks5");
            out.push("socks5_pw");
            out.push("http");
            out.push("http_pw");
            out.push("i2p");
        },
    }
    assert(crate::textfield::slice_texts(out@) =~= options(choice));
    out
}

/// The tab that a setting is on.
pub open spec fn tab_of(i: int) -> int {
    if i < 13 {
        0
    } else if i < 21 {
        1
    } else if i < 25 {
        2
    } else if i < 30 {
        3
    } else if i < 32 {
        4
    } else {
        5
    }
}

/// The first setting of a tab.
pub open spec fn tab_start(tab: int) -> int {
    if tab <= 0 {
        0
    } else if tab == 1 {
        13
    } else if tab == 2 {
        21
    } else if tab == 3 {
        25
    } else if tab == 4 {
        30
    } else if tab == 5 {
        32
    } else {
        33
    }
}

/// The first setting of a tab; behind the last tab the number of settings.
pub fn first_of_tab(tab: usize) -> (r: usize)
    ensures
        r == tab_start(tab as int),
        tab < TAB_COUNT ==> r < FIELD_COUNT && tab_of(r as int) == tab,
        tab < TAB_COUNT ==> r < tab_start(tab + 1),
        r <= FIELD_COUNT,
{
    if tab == 0 {
        0
    } else if tab == 1 {
        13
    } else if tab == 2 {
        21
    } else if tab == 3 {
        25
    } else if tab == 4 {
        30
    } else if tab == 5 {
        32
    } else {
        33
    }
}

/// The settings of a tab are those from its first on, up to the first of the next.
pub proof fn law_tabs_partition_the_settings(i: int, tab: int)
    requires
        0 <= i < FIELD_COUNT,
        0 <= tab < TAB_COUNT,
    ensures
        0 <= tab_of(i) < TAB_COUNT,
        tab_of(i) == tab <==> tab_start(tab) <= i < tab_start(tab + 1),
{
}

/// The title of a tab.
pub open spec fn tab_title(tab: int) -> Seq<char> {
    if tab == 0 {
        "security & anonymity"@
    } else if tab == 1 {
        "connection"@
    } else if tab == 2 {
        "bittorrent"@
    } else if tab == 3 {
        "limits"@
    } else if tab == 4 {
        "paths"@
    } else {
        "general"@
    }
}

/// The title of a tab.
pub fn section_title(tab: usize) -> (r: &'static str)
    ensures
        r@ == tab_title(tab as int),
{
    if tab == 0 {
        "security & anonymity"
    } else if tab == 1 {
        "connection"
    } else if tab == 2 {
        "bittorrent"
    } else if tab == 3 {
        "limits"
    } else if tab == 4 {
        "paths"
    } else {
        "general"
    }
}

/// The key by which the setting is set.
pub open spec fn key_text(i: int) -> Seq<char> {
    if i == 0 {
        "anonymous_mode"@
    } else if i == 1 {
        "encryption_mode"@
    } else if i == 2 {
        "ssrf_mitigation"@
    } else if i == 3 {
        "validate_https_tracker_certificate"@
    } else if i == 4 {
        "announce_to_all_trackers"@
    } else if i == 5 {
        "announce_to_all_tiers"@
    } else if i == 6 {
        "proxy_type"@
    } else if i == 7 {
        "proxy_host"@
    } else if i == 8 {
        "proxy_port"@
    } else if i == 9 {
        "proxy_username"@
    } else if i == 10 {
        "proxy_password"@
    } else if i == 11 {
        "proxy_peer_connections"@
    } else if i == 12 {
        "proxy_tracker_connections"@
    } else if i == 13 {
        "listen_address"@
    } else if i == 14 {
        "listen_port"@
    } else if i == 15 {
        "enable_upnp"@
    } else if i == 16 {
        "enable_natpmp"@
    } else if i == 17 {
        "max_connections"@
    } else if i == 18 {
        "max_uploads"@
    } else if i == 19 {
        "download_rate_limit"@
    } else if i == 20 {
        "upload_rate_limit"@
    } else if i == 21 {
        "enable_dht"@
    } else if i == 22 {
        "enable_lsd"@
    } else if i == 23 {
        "enable_incoming_utp"@
    } else if i == 24 {
        "enable_outgoing_utp"@
    } else if i == 25 {
        "max_active_downloads"@
    } else if i == 26 {
        "max_active_uploads"@
    } else if i == 27 {
        "max_active_torrents"@
    } else if i == 28 {
        "seed_ratio_limit"@
    } else if i == 29 {
        "seed_time_limit"@
    } else if i == 30 {
        "default_save_path"@
    } else if i == 31 {
        "watch_directories"@
    } else {
        "autostart"@
    }
}

/// The key by which the setting is set.
pub fn field_key(i: usize) -> (r: &'static str)
    ensures
        r@ == key_text(i as int),
{
    if i == 0 {
        "anonymous_mode"
    } else if i == 1 {
        "encryption_mode"
    } else if i == 2 {
        "ssrf_mitigation"
    } else if i == 3 {
        "validate_https_tracker_certificate"
    } else if i == 4 {
        "announce_to_all_trackers"
    } else if i == 5 {
        "announce_to_all_tiers"
    } else if i == 6 {
        "proxy_type"
    } else if i == 7 {
        "proxy_host"
    } else if i == 8 {
        "proxy_port"
    } else if i == 9 {
        "proxy_username"
    } else if i == 10 {
        "proxy_password"
    } else if i == 11 {
        "proxy_peer_connections"
    } else if i == 12 {
        "proxy_tracker_connections"
    } else if i == 13 {
        "listen_address"
    } else if i == 14 {
        "listen_port"
    } else if i == 15 {
        "enable_upnp"
    } else if i == 16 {
        "enable_natpmp"
    } else if i == 17 {
        "max_connections"
    } else if i == 18 {
        "max_uploads"
    } else if i == 19 {
        "download_rate_limit"
    } else if i == 20 {
        "upload_rate_limit"
    } else if i == 21 {
        "enable_dht"
    } else if i == 22 {
        "enable_lsd"
    } else if i == 23 {
        "enable_incoming_utp"
    } else if i == 24 {
        "enable_outgoing_utp"
    } else if i == 25 {
        "max_active_downloads"
    } else if i == 26 {
        "max_active_uploads"
    } else if i == 27 {
        "max_active_torrents"
    } else if i == 28 {
        "seed_ratio_limit"
    } else if i == 29 {
        "seed_time_limit"
    } else if i == 30 {
        "default_save_path"
    } else if i == 31 {
        "watch_directories"
    } else {
        "autostart"
    }
}

/// The label of the setting.
pub open spec fn label_text(i: int) -> Seq<char> {
    if i == 0 {
        "anonymous mode"@
    } else if i == 1 {
        "encryption mode"@
    } else if i == 2 {
        "ssrf mitigation"@
    } else if i == 3 {
        "validate https tracker cert"@
    } else if i == 4 {
        "announce to all trackers"@
    } else if i == 5 {
        "announce to all tiers"@
    } else if i == 6 {
        "proxy type"@
    } else if i == 7 {
        "proxy host"@
    } else if i == 8 {
        "proxy port"@
    } else if i == 9 {
        "proxy username"@
    } else if i == 10 {
        "proxy password"@
    } else if i == 11 {
        "proxy peer traffic"@
    } else if i == 12 {
        "proxy tracker traffic"@
    } else if i == 13 {
        "listen address (interface)"@
    } else if i == 14 {
        "listen port"@
    } else if i == 15 {
        "upnp port forwarding"@
    } else if i == 16 {
        "nat-pmp port forwarding"@
    } else if i == 17 {
        "max connections"@
    } else if i == 18 {
        "max upload slots"@
    } else if i == 19 {
        "download cap (KiB/s)"@
    } else if i == 20 {
        "upload cap (KiB/s)"@
    } else if i == 21 {
        "dht"@
    } else if i == 22 {
        "local service discovery"@
    } else if i == 23 {
        "incoming \u{b5}TP"@
    } else if i == 24 {
        "outgoing \u{b5}TP"@
    } else if i == 25 {
        "max active downloads"@
    } else if i == 26 {
        "max active uploads"@
    } else if i == 27 {
        "max active torrents"@
    } else if i == 28 {
        "seed ratio limit"@
    } else if i == 29 {
        "seed time limit (minutes)"@
    } else if i == 30 {
        "default save path"@
    } else if i == 31 {
        "watch directories"@
    } else {
        "start on login"@
    }
}

/// The label of the setting.
pub fn field_label(i: usize) -> (r: &'static str)
    ensures
        r@ == label_text(i as int),
{
    if i == 0 {
        "anonymous mode"
    } else if i == 1 {
        "encryption mode"
    } else if i == 2 {
        "ssrf mitigation"
    } else if i == 3 {
        "validate https tracker cert"
    } else if i == 4 {
        "announce to all trackers"
    } else if i == 5 {
        "announce to all tiers"
    } else if i == 6 {
        "proxy type"
    } else if i == 7 {
        "proxy host"
    } else if i == 8 {
        "proxy port"
    } else if i == 9 {
        "proxy username"
    } else if i == 10 {
        "proxy password"
    } else if i == 11 {
        "proxy peer traffic"
    } else if i == 12 {
        "proxy tracker traffic"
    } else if i == 13 {
        "listen address (interface)"
    } else if i == 14 {
        "listen port"
    } else if i == 15 {
        "upnp port forwarding"
    } else if i == 16 {
        "nat-pmp port forwarding"
    } else if i == 17 {
        "max connections"
    } else if i == 18 {
        "max upload slots"
    } else if i == 19 {
        "download cap (KiB/s)"
    } else if i == 20 {
        "upload cap (KiB/s)"
    } else if i == 21 {
        "dht"
    } else if i == 22 {
        "local service discovery"
    } else if i == 23 {
        "incoming \u{b5}TP"
    } else if i == 24 {
        "outgoing \u{b5}TP"
    } else if i == 25 {
        "max active downloads"
    } else if i == 26 {
        "max active uploads"
    } else if i == 27 {
        "max active torrents"
    } else if i == 28 {
        "seed ratio limit"
    } else if i == 29 {
        "seed time limit (minutes)"
    } else if i == 30 {
        "default save path"
    } else if i == 31 {
        "watch directories"
    } else {
        "start on login"
    }
}

/// What the setting does.
pub open spec fn description_text(i: int) -> Seq<char> {
    if i == 0 {
        "fingerprint reduction: blanks the client name in peer-id, drops the http user-agent on tracker announces, disables LSD and UPnP/NAT-PMP, and suppresses optional protocol features that identify the client. independent of encryption."@
    } else if i == 1 {
        "protocol encryption between peers. 'forced' refuses plaintext peers entirely (recommended). independent of anonymous mode \u{2014} does not affect tracker traffic or fingerprinting."@
    } else if i == 2 {
        "reject tracker responses that redirect to private/local addresses."@
    } else if i == 3 {
        "verify TLS certificates for HTTPS trackers."@
    } else if i == 4 {
        "announce to every tracker rather than stopping at the first success."@
    } else if i == 5 {
        "announce to all tracker tiers even when an earlier tier succeeds."@
    } else if i == 6 {
        "route traffic through a proxy. hard-fail semantics: if the proxy is unreachable at startup the daemon refuses to start rather than leaking on the bare interface."@
    } else if i == 7 {
        "hostname or ip of the proxy server."@
    } else if i == 8 {
        "port of the proxy server."@
    } else if i == 9 {
        "username for socks5_pw / http_pw proxy types."@
    } else if i == 10 {
        "password for socks5_pw / http_pw proxy types."@
    } else if i == 11 {
        "route peer-to-peer connections through the proxy. enable this to prevent peer ip leaks."@
    } else if i == 12 {
        "route tracker announces and scrapes through the proxy."@
    } else if i == 13 {
        "bind to a specific NIC (e.g. wireguard's interface) to kill-switch traffic if the vpn drops. pick from available interfaces or choose 'specific ip' to enter a raw address. requires daemon restart."@
    } else if i == 14 {
        "incoming peer port. requires daemon restart to re-bind."@
    } else if i == 15 {
        "automatic LAN router port forwarding via UPnP. opt-in."@
    } else if i == 16 {
        "automatic LAN router port forwarding via NAT-PMP. opt-in."@
    } else if i == 17 {
        "global peer connection ceiling. -1 means unlimited; 0 means none allowed."@
    } else if i == 18 {
        "global upload slot ceiling. -1 means unlimited; 0 means none allowed."@
    } else if i == 19 {
        "global download rate ceiling in KiB/s. 0 means unlimited."@
    } else if i == 20 {
        "global upload rate ceiling in KiB/s. 0 means unlimited."@
    } else if i == 21 {
        "distributed hash table for trackerless discovery."@
    } else if i == 22 {
        "find peers on the same LAN via multicast."@
    } else if i == 23 {
        "accept incoming \u{b5}TP (UDP) connections."@
    } else if i == 24 {
        "open outgoing connections over \u{b5}TP."@
    } else if i == 25 {
        "concurrent active downloads. -1 = unlimited; 0 = none allowed (queue but never start); 1+ = literal cap."@
    } else if i == 26 {
        "concurrent active uploads/seeds. -1 = unlimited; 0 = none allowed; 1+ = literal cap."@
    } else if i == 27 {
        "concurrent active torrents (downloads + uploads). -1 = unlimited; 0 = none allowed; 1+ = literal cap."@
    } else if i == 28 {
        "stop seeding at this ratio. 0 means unlimited."@
    } else if i == 29 {
        "stop seeding after this many minutes. 0 means unlimited."@
    } else if i == 30 {
        "where new torrents save their files by default."@
    } else if i == 31 {
        "directories the daemon watches for .torrent files to auto-add. one path per entry."@
    } else {
        "launch the monsoon daemon automatically when you log in. on linux, registers with the running init system (systemd, runit, or dinit) or falls back to an xdg .desktop entry. on windows, adds a registry run key."@
    }
}

/// What the setting does.
pub fn field_description(i: usize) -> (r: &'static str)
    ensures
        r@ == description_text(i as int),
{
    if i == 0 {
        "fingerprint reduction: blanks the client name in peer-id, drops the http user-agent on tracker announces, disables LSD and UPnP/NAT-PMP, and suppresses optional protocol features that identify the client. independent of encryption."
    } else if i == 1 {
        "protocol encryption between peers. 'forced' refuses plaintext peers entirely (recommended). independent of anonymous mode \u{2014} does not affect tracker traffic or fingerprinting."
    } else if i == 2 {
        "reject tracker responses that redirect to private/local addresses."
    } else if i == 3 {
        "verify TLS certificates for HTTPS trackers."
    } else if i == 4 {
        "announce to every tracker rather than stopping at the first success."
    } else if i == 5 {
        "announce to all tracker tiers even when an earlier tier succeeds."
    } else if i == 6 {
        "route traffic through a proxy. hard-fail semantics: if the proxy is unreachable at startup the daemon refuses to start rather than leaking on the bare interface."
    } else if i == 7 {
        "hostname or ip of the proxy server."
    } else if i == 8 {
        "port of the proxy server."
    } else if i == 9 {
        "username for socks5_pw / http_pw proxy types."
    } else if i == 10 {
        "password for socks5_pw / http_pw proxy types."
    } else if i == 11 {
        "route peer-to-peer connections through the proxy. enable this to prevent peer ip leaks."
    } else if i == 12 {
        "route tracker announces and scrapes through the proxy."
    } else if i == 13 {
        "bind to a specific NIC (e.g. wireguard's interface) to kill-switch traffic if the vpn drops. pick from available interfaces or choose 'specific ip' to enter a raw address. requires daemon restart."
    } else if i == 14 {
        "incoming peer port. requires daemon restart to re-bind."
    } else if i == 15 {
        "automatic LAN router port forwarding via UPnP. opt-in."
    } else if i == 16 {
        "automatic LAN router port forwarding via NAT-PMP. opt-in."
    } else if i == 17 {
        "global peer connection ceiling. -1 means unlimited; 0 means none allowed."
    } else if i == 18 {
        "global upload slot ceiling. -1 means unlimited; 0 means none allowed."
    } else if i == 19 {
        "global download rate ceiling in KiB/s. 0 means unlimited."
    } else if i == 20 {
        "global upload rate ceiling in KiB/s. 0 means unlimited."
    } else if i == 21 {
        "distributed hash table for trackerless discovery."
    } else if i == 22 {
        "find peers on the same LAN via multicast."
    } else if i == 23 {
        "accept incoming \u{b5}TP (UDP) connections."
    } else if i == 24 {
        "open outgoing connections over \u{b5}TP."
    } else if i == 25 {
        "concurrent active downloads. -1 = unlimited; 0 = none allowed (queue but never start); 1+ = literal cap."
    } else if i == 26 {
        "concurrent active uploads/seeds. -1 = unlimited; 0 = none allowed; 1+ = literal cap."
    } else if i == 27 {
        "concurrent active torrents (downloads + uploads). -1 = unlimited; 0 = none allowed; 1+ = literal cap."
    } else if i == 28 {
        "stop seeding at this ratio. 0 means unlimited."
    } else if i == 29 {
        "stop seeding after this many minutes. 0 means unlimited."
    } else if i == 30 {
        "where new torrents save their files by default."
    } else if i == 31 {
        "directories the daemon watches for .torrent files to auto-add. one path per entry."
    } else {
        "launch the monsoon daemon automatically when you log in. on linux, registers with the running init system (systemd, runit, or dinit) or falls back to an xdg .desktop entry. on windows, adds a registry run key."
    }
}

/// How the setting is shown and changed.
pub open spec fn kind_of(i: int) -> FieldKind {
    if i == 1 {
        FieldKind::Choice(Choice::Encryption)
    } else if i == 6 {
        FieldKind::Choice(Choice::Proxy)
    } else if i == 13 {
        FieldKind::Interface
    } else if i == 28 {
        FieldKind::Float
    } else if i == 7 || 9 <= i <= 10 || 30 <= i <= 31 {
        FieldKind::Text
    } else if i == 8 || i == 14 || 19 <= i <= 20 || i == 29 {
        FieldKind::Integer
    } else if 17 <= i <= 18 || 25 <= i <= 27 {
        FieldKind::IntegerUnlimited
    } else {
        FieldKind::Bool
    }
}

/// How the setting is shown and changed.
pub fn field_kind(i: usize) -> (r: FieldKind)
    ensures
        r == kind_of(i as int),
{
    if i == 1 {
        FieldKind::Choice(Choice::Encryption)
    } else if i == 6 {
        FieldKind::Choice(Choice::Proxy)
    } else if i == 13 {
        FieldKind::Interface
    } else if i == 28 {
        FieldKind::Float
    } else if i == 7 || (9 <= i && i <= 10) || (30 <= i && i <= 31) {
        FieldKind::Text
    } else if i == 8 || i == 14 || (19 <= i && i <= 20) || i == 29 {
        FieldKind::Integer
    } else if (17 <= i && i <= 18) || (25 <= i && i <= 27) {
        FieldKind::IntegerUnlimited
    } else {
        FieldKind::Bool
    }
}

/// Whether the setting takes effect only when the daemon starts again.
pub open spec fn needs_restart(i: int) -> bool {
    if 6 <= i <= 14 {
        true
    } else {
        false
    }
}

/// Whether the setting takes effect only when the daemon starts again.
pub fn field_restarts(i: usize) -> (r: bool)
    ensures
        r == needs_restart(i as int),
{
    if (6 <= i && i <= 14) {
        true
    } else {
        false
    }
}

/// Whether the setting is a list of folders.
pub open spec fn is_list(i: int) -> bool {
    if i == 31 {
        true
    } else {
        false
    }
}

/// Whether the setting is a list of folders.
pub fn field_is_list(i: usize) -> (r: bool)
    ensures
        r == is_list(i as int),
{
    if i == 31 {
        true
    } else {
        false
    }
}

// ----- values -----

/// A truth value in a word.
pub open spec fn bool_text(b: bool) -> Seq<char> {
    if b {
        "true"@
    } else {
        "false"@
    }
}

/// A truth value in a word.
pub fn write_bool(b: bool) -> (r: String)
    ensures
        r@ == bool_text(b),
{
    if b {
        "true".to_owned()
    } else {
        "false".to_owned()
    }
}

/// What a setting holds, in a word. `ratio` is the ratio limit as it is written, `autostart`
/// whether the daemon starts on login.
pub open spec fn value_text(c: Config, key: Seq<char>, ratio: Seq<char>, autostart: bool) -> Seq<
    char,
> {
    if key == "listen_address"@ {
        c.listen_address@
    } else if key == "listen_port"@ {
        decimal(c.listen_port as int)
    } else if key == "max_connections"@ {
        decimal(c.max_connections as int)
    } else if key == "max_uploads"@ {
        decimal(c.max_uploads as int)
    } else if key == "download_rate_limit"@ {
        decimal(c.download_rate_limit as int)
    } else if key == "upload_rate_limit"@ {
        decimal(c.upload_rate_limit as int)
    } else if key == "default_save_path"@ {
        c.default_save_path@
    } else if key == "enable_dht"@ {
        bool_text(c.enable_dht)
    } else if key == "enable_lsd"@ {
        bool_text(c.enable_lsd)
    } else if key == "enable_upnp"@ {
        bool_text(c.enable_upnp)
    } else if key == "enable_natpmp"@ {
        bool_text(c.enable_natpmp)
    } else if key == "anonymous_mode"@ {
        bool_text(c.anonymous_mode)
    } else if key == "encryption_mode"@ {
        c.encryption_mode@
    } else if key == "ssrf_mitigation"@ {
        bool_text(c.ssrf_mitigation)
    } else if key == "validate_https_tracker_certificate"@ {
        bool_text(c.validate_https_tracker_certificate)
    } else if key == "enable_incoming_utp"@ {
        bool_text(c.enable_incoming_utp)
    } else if key == "enable_outgoing_utp"@ {
        bool_text(c.enable_outgoing_utp)
    } else if key == "announce_to_all_trackers"@ {
        bool_text(c.announce_to_all_trackers)
    } else if key == "announce_to_all_tiers"@ {
        bool_text(c.announce_to_all_tiers)
    } else if key == "max_active_downloads"@ {
        decimal(c.max_active_downloads as int)
    } else if key == "max_active_uploads"@ {
        decimal(c.max_active_uploads as int)
    } else if key == "max_active_torrents"@ {
        decimal(c.max_active_torrents as int)
    } else if key == "seed_ratio_limit"@ {
        ratio
    } else if key == "seed_time_limit"@ {
        decimal(c.seed_time_limit as int)
    } else if key == "proxy_type"@ {
        c.proxy_type@
    } else if key == "proxy_host"@ {
        c.proxy_host@
    } else if key == "proxy_port"@ {
        decimal(c.proxy_port as int)
    } else if key == "proxy_username"@ {
        c.proxy_username@
    } else if key == "proxy_password"@ {
        c.proxy_password@
    } else if key == "proxy_peer_connections"@ {
        bool_text(c.proxy_peer_connections)
    } else if key == "proxy_tracker_connections"@ {
        bool_text(c.proxy_tracker_connections)
    } else if key == "autostart"@ {
        bool_text(autostart)
    } else {
        Seq::empty()
    }
}

/// What a setting holds, in a word.
pub fn config_value_string(config: &Config, key: &str, ratio: &str, autostart: bool) -> (r: String)
    ensures
        r@ == value_text(*config, key@, ratio@, autostart),
{
    if same(key, "listen_address") {
        config.listen_address.clone()
    } else if same(key, "listen_port") {
        decimal_u64(config.listen_port as u64)
    } else if same(key, "max_connections") {
        decimal_i64(config.max_connections as i64)
    } else if same(key, "max_uploads") {
        decimal_i64(config.max_uploads as i64)
    } else if same(key, "download_rate_limit") {
        decimal_i64(config.download_rate_limit as i64)
    } else if same(key, "upload_rate_limit") {
        decimal_i64(config.upload_rate_limit as i64)
    } else if same(key, "default_save_path") {
        config.default_save_path.clone()
    } else if same(key, "enable_dht") {
        write_bool(config.enable_dht)
    } else if same(key, "enable_lsd") {
        write_bool(config.enable_lsd)
    } else if same(key, "enable_upnp") {
        write_bool(config.enable_upnp)
    } else if same(key, "enable_natpmp") {
        write_bool(config.enable_natpmp)
    } else if same(key, "anonymous_mode") {
        write_bool(config.anonymous_mode)
    } else if same(key, "encryption_mode") {
        config.encryption_mode.clone()
    } else if same(key, "ssrf_mitigation") {
        write_bool(config.ssrf_mitigation)
    } else if same(key, "validate_https_tracker_certificate") {
        write_bool(config.validate_https_tracker_certificate)
    } else if same(key, "enable_incoming_utp") {
        write_bool(config.enable_incoming_utp)
    } else if same(key, "enable_outgoing_utp") {
        write_bool(config.enable_outgoing_utp)
    } else if same(key, "announce_to_all_trackers") {
        write_bool(config.announce_to_all_trackers)
    } else if same(key, "announce_to_all_tiers") {
        write_bool(config.announce_to_all_tiers)
    } else if same(key, "max_active_downloads") {
        decimal_i64(config.max_active_downloads as i64)
    } else if same(key, "max_active_uploads") {
        decimal_i64(config.max_active_uploads as i64)
    } else if same(key, "max_active_torrents") {
        decimal_i64(config.max_active_torrents as i64)
    } else if same(key, "seed_ratio_limit") {
        ratio.to_owned()
    } else if same(key, "seed_time_limit") {
        decimal_i64(config.seed_time_limit as i64)
    } else if same(key, "proxy_type") {
        config.proxy_type.clone()
    } else if same(key, "proxy_host") {
        config.proxy_host.clone()
    } else if same(key, "proxy_port") {
        decimal_u64(config.proxy_port as u64)
    } else if same(key, "proxy_username") {
        config.proxy_username.clone()
    } else if same(key, "proxy_password") {
        config.proxy_password.clone()
    } else if same(key, "proxy_peer_connections") {
        write_bool(config.proxy_peer_connections)
    } else if same(key, "proxy_tracker_connections") {
        write_bool(config.proxy_tracker_connections)
    } else if same(key, "autostart") {
        write_bool(autostart)
    } else {
        let none = String::new();
        assert(none@ =~= Seq::<char>::empty());
        none
    }
}

} // verus!
