//! The settings that the session is created with and told of.

use crate::bridge::SessionSettings;
use crate::config::Config;
use crate::text::{concat3, decimal, decimal_u64, join, join_with, same, texts};
use vstd::prelude::*;

verus! {

// The categories of messages that the session can send, one bit each.
pub const ALERT_ERROR: i32 = 1;

pub const ALERT_PORT_MAPPING: i32 = 4;

pub const ALERT_STORAGE: i32 = 8;

pub const ALERT_TRACKER: i32 = 16;

pub const ALERT_STATUS: i32 = 64;

/// The categories that the daemon reads. Peer, connection and progress messages come too fast
/// to be drained and are left out.
pub const ALERT_MASK: i32 = 93;

/// What stands for "unlimited" in settings that have no such value.
pub const NO_LIMIT: i32 = 65535;

/// The mask asks for errors, status, storage, trackers and port mapping.
pub proof fn law_alert_mask()
    ensures
        ALERT_MASK == ALERT_ERROR | ALERT_STATUS | ALERT_STORAGE | ALERT_TRACKER
            | ALERT_PORT_MAPPING,
{
    assert(93i32 == 1i32 | 64i32 | 8i32 | 16i32 | 4i32) by (bit_vector);
}

/// The number by which the session knows a proxy type; a word it does not know is no proxy.
pub open spec fn proxy_number(name: Seq<char>) -> i32 {
    if name == "socks4"@ {
        1
    } else if name == "socks5"@ {
        2
    } else if name == "socks5_pw"@ {
        3
    } else if name == "http"@ {
        4
    } else if name == "http_pw"@ {
        5
    } else if name == "i2p"@ {
        6
    } else {
        0
    }
}

/// The number by which the session knows a proxy type.
pub fn proxy_type_int(name: &str) -> (r: i32)
    ensures
        r == proxy_number(name@),
{
    if same(name, "socks4") {
        1
    } else if same(name, "socks5") {
        2
    } else if same(name, "socks5_pw") {
        3
    } else if same(name, "http") {
        4
    } else if same(name, "http_pw") {
        5
    } else if same(name, "i2p") {
        6
    } else {
        0
    }
}

/// The number by which the session knows an encryption mode.
pub open spec fn encryption_number(mode: Seq<char>) -> i32 {
    if mode == "forced"@ {
        0
    } else if mode == "disabled"@ {
        2
    } else {
        1
    }
}

/// The limit as the session takes it.
pub open spec fn capped(limit: i32) -> i32 {
    if limit == -1 {
        NO_LIMIT
    } else {
        limit
    }
}

/// The rate limits can be written in bytes.
pub open spec fn rates_fit(c: Config) -> bool {
    &&& i32::MIN <= c.download_rate_limit * 1024 <= i32::MAX
    &&& i32::MIN <= c.upload_rate_limit * 1024 <= i32::MAX
}

/// Whether the rate limits can be written in bytes.
pub fn rates_representable(c: &Config) -> (r: bool)
    ensures
        r == rates_fit(*c),
{
    c.download_rate_limit >= -2097152 && c.download_rate_limit <= 2097151 && c.upload_rate_limit
        >= -2097152 && c.upload_rate_limit <= 2097151
}

/// The session settings that a configuration stands for.
pub open spec fn settings_of(config: Config) -> SessionSettings {
    SessionSettings {
        max_uploads: capped(config.max_uploads),
        max_connections: capped(config.max_connections),
        download_rate_limit: (config.download_rate_limit * 1024) as i32,
        upload_rate_limit: (config.upload_rate_limit * 1024) as i32,
        enable_dht: config.enable_dht,
        enable_lsd: config.enable_lsd,
        enable_upnp: config.enable_upnp,
        enable_natpmp: config.enable_natpmp,
        anonymous_mode: config.anonymous_mode,
        encryption_out_policy: encryption_number(config.encryption_mode@),
        encryption_in_policy: encryption_number(config.encryption_mode@),
        enable_incoming_utp: config.enable_incoming_utp,
        enable_outgoing_utp: config.enable_outgoing_utp,
        announce_to_all_trackers: config.announce_to_all_trackers,
        announce_to_all_tiers: config.announce_to_all_tiers,
        ssrf_mitigation: config.ssrf_mitigation,
        validate_https_trackers: config.validate_https_tracker_certificate,
        max_active_downloads: config.max_active_downloads,
        max_active_uploads: config.max_active_uploads,
        max_active_torrents: config.max_active_torrents,
        seed_ratio_limit: config.seed_ratio_limit,
        seed_time_limit: config.seed_time_limit,
        proxy_type: proxy_number(config.proxy_type@),
        proxy_hostname: config.proxy_host,
        proxy_port: config.proxy_port as i32,
        proxy_username: config.proxy_username,
        proxy_password: config.proxy_password,
        proxy_peer_connections: config.proxy_peer_connections,
        proxy_tracker_connections: config.proxy_tracker_connections,
    }
}

/// The session settings that a configuration stands for.
pub fn config_to_settings(config: &Config) -> (r: SessionSettings)
    requires
        rates_fit(*config),
    ensures
        r == settings_of(*config),
{
    let policy: i32 = if same(config.encryption_mode.as_str(), "forced") {
        0
    } else if same(config.encryption_mode.as_str(), "disabled") {
        2
    } else {
        1
    };
    let max_connections: i32 = if config.max_connections == -1 {
        NO_LIMIT
    } else {
        config.max_connections
    };
    let max_uploads: i32 = if config.max_uploads == -1 {
        NO_LIMIT
    } else {
        config.max_uploads
    };
    SessionSettings {
        max_uploads,
        max_connections,
        download_rate_limit: config.download_rate_limit * 1024,
        upload_rate_limit: config.upload_rate_limit * 1024,
        enable_dht: config.enable_dht,
        enable_lsd: config.enable_lsd,
        enable_upnp: config.enable_upnp,
        enable_natpmp: config.enable_natpmp,
        anonymous_mode: config.anonymous_mode,
        encryption_out_policy: policy,
        encryption_in_policy: policy,
        enable_incoming_utp: config.enable_incoming_utp,
        enable_outgoing_utp: config.enable_outgoing_utp,
        announce_to_all_trackers: config.announce_to_all_trackers,
        announce_to_all_tiers: config.announce_to_all_tiers,
        ssrf_mitigation: config.ssrf_mitigation,
        validate_https_trackers: config.validate_https_tracker_certificate,
        max_active_downloads: config.max_active_downloads,
        max_active_uploads: config.max_active_uploads,
        max_active_torrents: config.max_active_torrents,
        seed_ratio_limit: config.seed_ratio_limit,
        seed_time_limit: config.seed_time_limit,
        proxy_type: proxy_type_int(config.proxy_type.as_str()),
        proxy_hostname: config.proxy_host.clone(),
        proxy_port: config.proxy_port as i32,
        proxy_username: config.proxy_username.clone(),
        proxy_password: config.proxy_password.clone(),
        proxy_peer_connections: config.proxy_peer_connections,
        proxy_tracker_connections: config.proxy_tracker_connections,
    }
}

/// The addresses with the port behind each.
pub open spec fn endpoints(ips: Seq<Seq<char>>, port: int) -> Seq<Seq<char>> {
    ips.map_values(|ip: Seq<char>| ip + ":"@ + decimal(port))
}

/// Where the session listens: on the addresses of the configured interfaces, or on the one
/// configured address where none are.
pub open spec fn listen_text(config: Config, ips: Seq<Seq<char>>) -> Seq<char> {
    if config.listen_interfaces@.len() > 0 {
        join(endpoints(ips, config.listen_port as int), ","@)
    } else {
        config.listen_address@ + ":"@ + decimal(config.listen_port as int)
    }
}

/// Where the session listens; `ips` are the addresses that the configured interfaces have now.
pub fn listen_endpoints(config: &Config, ips: &Vec<String>) -> (r: String)
    ensures
        r@ == listen_text(*config, texts(ips@)),
{
    let port = decimal_u64(config.listen_port as u64);
    if config.listen_interfaces.len() > 0 {
        let mut out: Vec<String> = Vec::new();
        let mut i: usize = 0;
        while i < ips.len()
            invariant
                i <= ips@.len(),
                out@.len() == i,
                port@ == decimal(config.listen_port as int),
                forall|j: int|
                    0 <= j < i ==> (#[trigger] out@[j])@ == ips@[j]@ + ":"@ + decimal(
                        config.listen_port as int,
                    ),
            decreases ips@.len() - i,
        {
            out.push(concat3(ips[i].as_str(), ":", port.as_str()));
            i = i + 1;
        }
        assert(texts(out@) =~= endpoints(texts(ips@), config.listen_port as int));
        join_with(&out, ",")
    } else {
        concat3(config.listen_address.as_str(), ":", port.as_str())
    }
}

} // verus!
