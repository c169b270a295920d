//! What the settings page shows of a setting that was stored.

use crate::binary64::Real64;
use crate::config::Config;
use crate::config_keys::{
    affirms, number_of, port_of, set_refusal, setting_of, value_set, with_choice, with_text,
    ChoiceKey, FlagKey, NumberKey, PortKey, Setting, TextKey,
};
use crate::text::decimal;
use crate::tui::schema::{bool_text, key_text, value_text, FIELD_COUNT};
use vstd::prelude::*;

verus! {

/// The keys of settings have these lengths, and keys of the same length differ.
pub(crate) proof fn lemma_keys_differ()
    ensures
        "dht"@.len() == 3,
        "lsd"@.len() == 3,
        "upnp"@.len() == 4,
        "natpmp"@.len() == 6,
        "dl_limit"@.len() == 8,
        "ul_limit"@.len() == 8,
        "autostart"@.len() == 9,
        "enable_dht"@.len() == 10,
        "enable_lsd"@.len() == 10,
        "proxy_host"@.len() == 10,
        "proxy_port"@.len() == 10,
        "proxy_type"@.len() == 10,
        "time_limit"@.len() == 10,
        "auto_resume"@.len() == 11,
        "enable_upnp"@.len() == 11,
        "listen_port"@.len() == 11,
        "max_uploads"@.len() == 11,
        "ratio_limit"@.len() == 11,
        "active_limit"@.len() == 12,
        "incoming_utp"@.len() == 12,
        "outgoing_utp"@.len() == 12,
        "enable_natpmp"@.len() == 13,
        "active_uploads"@.len() == 14,
        "anonymous_mode"@.len() == 14,
        "listen_address"@.len() == 14,
        "proxy_password"@.len() == 14,
        "proxy_username"@.len() == 14,
        "validate_https"@.len() == 14,
        "encryption_mode"@.len() == 15,
        "max_connections"@.len() == 15,
        "seed_time_limit"@.len() == 15,
        "ssrf_mitigation"@.len() == 15,
        "active_downloads"@.len() == 16,
        "seed_ratio_limit"@.len() == 16,
        "default_save_path"@.len() == 17,
        "rename_merge_same"@.len() == 17,
        "seed_ratio_action"@.len() == 17,
        "upload_rate_limit"@.len() == 17,
        "watch_directories"@.len() == 17,
        "max_active_uploads"@.len() == 18,
        "download_rate_limit"@.len() == 19,
        "enable_incoming_utp"@.len() == 19,
        "enable_outgoing_utp"@.len() == 19,
        "max_active_torrents"@.len() == 19,
        "max_active_downloads"@.len() == 20,
        "announce_to_all_tiers"@.len() == 21,
        "notifications_enabled"@.len() == 21,
        "default_content_layout"@.len() == 22,
        "proxy_peer_connections"@.len() == 22,
        "rename_merge_unrelated"@.len() == 22,
        "rename_untracked_files"@.len() == 22,
        "announce_to_all_trackers"@.len() == 24,
        "proxy_tracker_connections"@.len() == 25,
        "validate_https_tracker_certificate"@.len() == 34,
        "dht"@ != "lsd"@,
        "dl_limit"@ != "ul_limit"@,
        "enable_dht"@ != "enable_lsd"@,
        "enable_dht"@ != "proxy_host"@,
        "enable_dht"@ != "proxy_port"@,
        "enable_dht"@ != "proxy_type"@,
        "enable_dht"@ != "time_limit"@,
        "enable_lsd"@ != "proxy_host"@,
        "enable_lsd"@ != "proxy_port"@,
        "enable_lsd"@ != "proxy_type"@,
        "enable_lsd"@ != "time_limit"@,
        "proxy_host"@ != "proxy_port"@,
        "proxy_host"@ != "proxy_type"@,
        "proxy_host"@ != "time_limit"@,
        "proxy_port"@ != "proxy_type"@,
        "proxy_port"@ != "time_limit"@,
        "proxy_type"@ != "time_limit"@,
        "auto_resume"@ != "enable_upnp"@,
        "auto_resume"@ != "listen_port"@,
        "auto_resume"@ != "max_uploads"@,
        "auto_resume"@ != "ratio_limit"@,
        "enable_upnp"@ != "listen_port"@,
        "enable_upnp"@ != "max_uploads"@,
        "enable_upnp"@ != "ratio_limit"@,
        "listen_port"@ != "max_uploads"@,
        "listen_port"@ != "ratio_limit"@,
        "max_uploads"@ != "ratio_limit"@,
        "active_limit"@ != "incoming_utp"@,
        "active_limit"@ != "outgoing_utp"@,
        "incoming_utp"@ != "outgoing_utp"@,
        "active_uploads"@ != "anonymous_mode"@,
        "active_uploads"@ != "listen_address"@,
        "active_uploads"@ != "proxy_password"@,
        "active_uploads"@ != "proxy_username"@,
        "active_uploads"@ != "validate_https"@,
        "anonymous_mode"@ != "listen_address"@,
        "anonymous_mode"@ != "proxy_password"@,
        "anonymous_mode"@ != "proxy_username"@,
        "anonymous_mode"@ != "validate_https"@,
        "listen_address"@ != "proxy_password"@,
        "listen_address"@ != "proxy_username"@,
        "listen_address"@ != "validate_https"@,
        "proxy_password"@ != "proxy_username"@,
        "proxy_password"@ != "validate_https"@,
        "proxy_username"@ != "validate_https"@,
        "encryption_mode"@ != "max_connections"@,
        "encryption_mode"@ != "seed_time_limit"@,
        "encryption_mode"@ != "ssrf_mitigation"@,
        "max_connections"@ != "seed_time_limit"@,
        "max_connections"@ != "ssrf_mitigation"@,
        "seed_time_limit"@ != "ssrf_mitigation"@,
        "active_downloads"@ != "seed_ratio_limit"@,
        "default_save_path"@ != "rename_merge_same"@,
        "default_save_path"@ != "seed_ratio_action"@,
        "default_save_path"@ != "upload_rate_limit"@,
        "default_save_path"@ != "watch_directories"@,
        "rename_merge_same"@ != "seed_ratio_action"@,
        "rename_merge_same"@ != "upload_rate_limit"@,
        "rename_merge_same"@ != "watch_directories"@,
        "seed_ratio_action"@ != "upload_rate_limit"@,
        "seed_ratio_action"@ != "watch_directories"@,
        "upload_rate_limit"@ != "watch_directories"@,
        "download_rate_limit"@ != "enable_incoming_utp"@,
        "download_rate_limit"@ != "enable_outgoing_utp"@,
        "download_rate_limit"@ != "max_active_torrents"@,
        "enable_incoming_utp"@ != "enable_outgoing_utp"@,
        "enable_incoming_utp"@ != "max_active_torrents"@,
        "enable_outgoing_utp"@ != "max_active_torrents"@,
        "announce_to_all_tiers"@ != "notifications_enabled"@,
        "default_content_layout"@ != "proxy_peer_connections"@,
        "default_content_layout"@ != "rename_merge_unrelated"@,
        "default_content_layout"@ != "rename_untracked_files"@,
        "proxy_peer_connections"@ != "rename_merge_unrelated"@,
        "proxy_peer_connections"@ != "rename_untracked_files"@,
        "rename_merge_unrelated"@ != "rename_untracked_files"@,
{
    reveal_strlit("dht");
    reveal_strlit("lsd");
    reveal_strlit("upnp");
    reveal_strlit("natpmp");
    reveal_strlit("dl_limit");
    reveal_strlit("ul_limit");
    reveal_strlit("autostart");
    reveal_strlit("enable_dht");
    reveal_strlit("enable_lsd");
    reveal_strlit("proxy_host");
    reveal_strlit("proxy_port");
    reveal_strlit("proxy_type");
    reveal_strlit("time_limit");
    reveal_strlit("auto_resume");
    reveal_strlit("enable_upnp");
    reveal_strlit("listen_port");
    reveal_strlit("max_uploads");
    reveal_strlit("ratio_limit");
    reveal_strlit("active_limit");
    reveal_strlit("incoming_utp");
    reveal_strlit("outgoing_utp");
    reveal_strlit("enable_natpmp");
    reveal_strlit("active_uploads");
    reveal_strlit("anonymous_mode");
    reveal_strlit("listen_address");
    reveal_strlit("proxy_password");
    reveal_strlit("proxy_username");
    reveal_strlit("validate_https");
    reveal_strlit("encryption_mode");
    reveal_strlit("max_connections");
    reveal_strlit("seed_time_limit");
    reveal_strlit("ssrf_mitigation");
    reveal_strlit("active_downloads");
    reveal_strlit("seed_ratio_limit");
    reveal_strlit("default_save_path");
    reveal_strlit("rename_merge_same");
    reveal_strlit("seed_ratio_action");
    reveal_strlit("upload_rate_limit");
    reveal_strlit("watch_directories");
    reveal_strlit("max_active_uploads");
    reveal_strlit("download_rate_limit");
    reveal_strlit("enable_incoming_utp");
    reveal_strlit("enable_outgoing_utp");
    reveal_strlit("max_active_torrents");
    reveal_strlit("max_active_downloads");
    reveal_strlit("announce_to_all_tiers");
    reveal_strlit("notifications_enabled");
    reveal_strlit("default_content_layout");
    reveal_strlit("proxy_peer_connections");
    reveal_strlit("rename_merge_unrelated");
    reveal_strlit("rename_untracked_files");
    reveal_strlit("announce_to_all_trackers");
    reveal_strlit("proxy_tracker_connections");
    reveal_strlit("validate_https_tracker_certificate");
    assert("dht"@[0] != "lsd"@[0]);
    assert("dl_limit"@[0] != "ul_limit"@[0]);
    assert("enable_dht"@[7] != "enable_lsd"@[7]);
    assert("enable_dht"@[0] != "proxy_host"@[0]);
    assert("enable_dht"@[0] != "proxy_port"@[0]);
    assert("enable_dht"@[0] != "proxy_type"@[0]);
    assert("enable_dht"@[0] != "time_limit"@[0]);
    assert("enable_lsd"@[0] != "proxy_host"@[0]);
    assert("enable_lsd"@[0] != "proxy_port"@[0]);
    assert("enable_lsd"@[0] != "proxy_type"@[0]);
    assert("enable_lsd"@[0] != "time_limit"@[0]);
    assert("proxy_host"@[6] != "proxy_port"@[6]);
    assert("proxy_host"@[6] != "proxy_type"@[6]);
    assert("proxy_host"@[0] != "time_limit"@[0]);
    assert("proxy_port"@[6] != "proxy_type"@[6]);
    assert("proxy_port"@[0] != "time_limit"@[0]);
    assert("proxy_type"@[0] != "time_limit"@[0]);
    assert("auto_resume"@[0] != "enable_upnp"@[0]);
    assert("auto_resume"@[0] != "listen_port"@[0]);
    assert("auto_resume"@[0] != "max_uploads"@[0]);
    assert("auto_resume"@[0] != "ratio_limit"@[0]);
    assert("enable_upnp"@[0] != "listen_port"@[0]);
    assert("enable_upnp"@[0] != "max_uploads"@[0]);
    assert("enable_upnp"@[0] != "ratio_limit"@[0]);
    assert("listen_port"@[0] != "max_uploads"@[0]);
    assert("listen_port"@[0] != "ratio_limit"@[0]);
    assert("max_uploads"@[0] != "ratio_limit"@[0]);
    assert("active_limit"@[0] != "incoming_utp"@[0]);
    assert("active_limit"@[0] != "outgoing_utp"@[0]);
    assert("incoming_utp"@[0] != "outgoing_utp"@[0]);
    assert("active_uploads"@[1] != "anonymous_mode"@[1]);
    assert("active_uploads"@[0] != "listen_address"@[0]);
    assert("active_uploads"@[0] != "proxy_password"@[0]);
    assert("active_uploads"@[0] != "proxy_username"@[0]);
    assert("active_uploads"@[0] != "validate_https"@[0]);
    assert("anonymous_mode"@[0] != "listen_address"@[0]);
    assert("anonymous_mode"@[0] != "proxy_password"@[0]);
    assert("anonymous_mode"@[0] != "proxy_username"@[0]);
    assert("anonymous_mode"@[0] != "validate_https"@[0]);
    assert("listen_address"@[0] != "proxy_password"@[0]);
    assert("listen_address"@[0] != "proxy_username"@[0]);
    assert("listen_address"@[0] != "validate_https"@[0]);
    assert("proxy_password"@[6] != "proxy_username"@[6]);
    assert("proxy_password"@[0] != "validate_https"@[0]);
    assert("proxy_username"@[0] != "validate_https"@[0]);
    assert("encryption_mode"@[0] != "max_connections"@[0]);
    assert("encryption_mode"@[0] != "seed_time_limit"@[0]);
    assert("encryption_mode"@[0] != "ssrf_mitigation"@[0]);
    assert("max_connections"@[0] != "seed_time_limit"@[0]);
    assert("max_connections"@[0] != "ssrf_mitigation"@[0]);
    assert("seed_time_limit"@[1] != "ssrf_mitigation"@[1]);
    assert("active_downloads"@[0] != "seed_ratio_limit"@[0]);
    assert("default_save_path"@[0] != "rename_merge_same"@[0]);
    assert("default_save_path"@[0] != "seed_ratio_action"@[0]);
    assert("default_save_path"@[0] != "upload_rate_limit"@[0]);
    assert("default_save_path"@[0] != "watch_directories"@[0]);
    assert("rename_merge_same"@[0] != "seed_ratio_action"@[0]);
    assert("rename_merge_same"@[0] != "upload_rate_limit"@[0]);
    assert("rename_merge_same"@[0] != "watch_directories"@[0]);
    assert("seed_ratio_action"@[0] != "upload_rate_limit"@[0]);
    assert("seed_ratio_action"@[0] != "watch_directories"@[0]);
    assert("upload_rate_limit"@[0] != "watch_directories"@[0]);
    assert("download_rate_limit"@[0] != "enable_incoming_utp"@[0]);
    assert("download_rate_limit"@[0] != "enable_outgoing_utp"@[0]);
    assert("download_rate_limit"@[0] != "max_active_torrents"@[0]);
    assert("enable_incoming_utp"@[7] != "enable_outgoing_utp"@[7]);
    assert("enable_incoming_utp"@[0] != "max_active_torrents"@[0]);
    assert("enable_outgoing_utp"@[0] != "max_active_torrents"@[0]);
    assert("announce_to_all_tiers"@[0] != "notifications_enabled"@[0]);
    assert("default_content_layout"@[0] != "proxy_peer_connections"@[0]);
    assert("default_content_layout"@[0] != "rename_merge_unrelated"@[0]);
    assert("default_content_layout"@[0] != "rename_untracked_files"@[0]);
    assert("proxy_peer_connections"@[0] != "rename_merge_unrelated"@[0]);
    assert("proxy_peer_connections"@[0] != "rename_untracked_files"@[0]);
    assert("rename_merge_unrelated"@[7] != "rename_untracked_files"@[7]);
}

/// The setting at a place of the page, where it is one of the configuration.
pub open spec fn page_setting(i: int) -> Option<Setting> {
    if i == 0 {
        Some(Setting::Flag(FlagKey::AnonymousMode))
    } else if i == 1 {
        Some(Setting::Choice(ChoiceKey::EncryptionMode))
    } else if i == 2 {
        Some(Setting::Flag(FlagKey::SsrfMitigation))
    } else if i == 3 {
        Some(Setting::Flag(FlagKey::ValidateHttpsTrackerCertificate))
    } else if i == 4 {
        Some(Setting::Flag(FlagKey::AnnounceToAllTrackers))
    } else if i == 5 {
        Some(Setting::Flag(FlagKey::AnnounceToAllTiers))
    } else if i == 6 {
        Some(Setting::Choice(ChoiceKey::ProxyType))
    } else if i == 7 {
        Some(Setting::Text(TextKey::ProxyHost))
    } else if i == 8 {
        Some(Setting::Port(PortKey::ProxyPort))
    } else if i == 9 {
        Some(Setting::Text(TextKey::ProxyUsername))
    } else if i == 10 {
        Some(Setting::Text(TextKey::ProxyPassword))
    } else if i == 11 {
        Some(Setting::Flag(FlagKey::ProxyPeerConnections))
    } else if i == 12 {
        Some(Setting::Flag(FlagKey::ProxyTrackerConnections))
    } else if i == 13 {
        Some(Setting::Text(TextKey::ListenAddress))
    } else if i == 14 {
        Some(Setting::Port(PortKey::ListenPort))
    } else if i == 15 {
        Some(Setting::Flag(FlagKey::EnableUpnp))
    } else if i == 16 {
        Some(Setting::Flag(FlagKey::EnableNatpmp))
    } else if i == 17 {
        Some(Setting::Number(NumberKey::MaxConnections))
    } else if i == 18 {
        Some(Setting::Number(NumberKey::MaxUploads))
    } else if i == 19 {
        Some(Setting::Number(NumberKey::DownloadRateLimit))
    } else if i == 20 {
        Some(Setting::Number(NumberKey::UploadRateLimit))
    } else if i == 21 {
        Some(Setting::Flag(FlagKey::EnableDht))
    } else if i == 22 {
        Some(Setting::Flag(FlagKey::EnableLsd))
    } else if i == 23 {
        Some(Setting::Flag(FlagKey::EnableIncomingUtp))
    } else if i == 24 {
        Some(Setting::Flag(FlagKey::EnableOutgoingUtp))
    } else if i == 25 {
        Some(Setting::Number(NumberKey::MaxActiveDownloads))
    } else if i == 26 {
        Some(Setting::Number(NumberKey::MaxActiveUploads))
    } else if i == 27 {
        Some(Setting::Number(NumberKey::MaxActiveTorrents))
    } else if i == 28 {
        Some(Setting::SeedRatioLimit)
    } else if i == 29 {
        Some(Setting::Number(NumberKey::SeedTimeLimit))
    } else if i == 30 {
        Some(Setting::Text(TextKey::DefaultSavePath))
    } else if i == 31 {
        Some(Setting::WatchDirectories)
    } else if i == 32 {
        None
    } else {
        None
    }
}

/// What the setting at a place of the page holds.
pub open spec fn page_value(c: Config, i: int, ratio: Seq<char>, autostart: bool) -> Seq<char> {
    if i == 0 {
        bool_text(c.anonymous_mode)
    } else if i == 1 {
        c.encryption_mode@
    } else if i == 2 {
        bool_text(c.ssrf_mitigation)
    } else if i == 3 {
        bool_text(c.validate_https_tracker_certificate)
    } else if i == 4 {
        bool_text(c.announce_to_all_trackers)
    } else if i == 5 {
        bool_text(c.announce_to_all_tiers)
    } else if i == 6 {
        c.proxy_type@
    } else if i == 7 {
        c.proxy_host@
    } else if i == 8 {
        decimal(c.proxy_port as int)
    } else if i == 9 {
        c.proxy_username@
    } else if i == 10 {
        c.proxy_password@
    } else if i == 11 {
        bool_text(c.proxy_peer_connections)
    } else if i == 12 {
        bool_text(c.proxy_tracker_connections)
    } else if i == 13 {
        c.listen_address@
    } else if i == 14 {
        decimal(c.listen_port as int)
    } else if i == 15 {
        bool_text(c.enable_upnp)
    } else if i == 16 {
        bool_text(c.enable_natpmp)
    } else if i == 17 {
        decimal(c.max_connections as int)
    } else if i == 18 {
        decimal(c.max_uploads as int)
    } else if i == 19 {
        decimal(c.download_rate_limit as int)
    } else if i == 20 {
        decimal(c.upload_rate_limit as int)
    } else if i == 21 {
        bool_text(c.enable_dht)
    } else if i == 22 {
        bool_text(c.enable_lsd)
    } else if i == 23 {
        bool_text(c.enable_incoming_utp)
    } else if i == 24 {
        bool_text(c.enable_outgoing_utp)
    } else if i == 25 {
        decimal(c.max_active_downloads as int)
    } else if i == 26 {
        decimal(c.max_active_uploads as int)
    } else if i == 27 {
        decimal(c.max_active_torrents as int)
    } else if i == 28 {
        ratio
    } else if i == 29 {
        decimal(c.seed_time_limit as int)
    } else if i == 30 {
        c.default_save_path@
    } else if i == 31 {
        Seq::empty()
    } else if i == 32 {
        bool_text(autostart)
    } else {
        Seq::empty()
    }
}

/// The key `anonymous_mode` names its own setting.
proof fn lemma_key_0(c: Config, ratio: Seq<char>, autostart: bool)
    ensures
        setting_of("anonymous_mode"@) == page_setting(0),
        value_text(c, "anonymous_mode"@, ratio, autostart) == page_value(c, 0, ratio, autostart),
{
    lemma_keys_differ();
}

/// The key `encryption_mode` names its own setting.
proof fn lemma_key_1(c: Config, ratio: Seq<char>, autostart: bool)
    ensures
        setting_of("encryption_mode"@) == page_setting(1),
        value_text(c, "encryption_mode"@, ratio, autostart) == page_value(c, 1, ratio, autostart),
{
    lemma_keys_differ();
}

/// The key `ssrf_mitigation` names its own setting.
proof fn lemma_key_2(c: Config, ratio: Seq<char>, autostart: bool)
    ensures
        setting_of("ssrf_mitigation"@) == page_setting(2),
        value_text(c, "ssrf_mitigation"@, ratio, autostart) == page_value(c, 2, ratio, autostart),
{
    lemma_keys_differ();
}

/// The key `validate_https_tracker_certificate` names its own setting.
proof fn lemma_key_3(c: Config, ratio: Seq<char>, autostart: bool)
    ensures
        setting_of("validate_https_tracker_certificate"@) == page_setting(3),
        value_text(c, "validate_https_tracker_certificate"@, ratio, autostart) == page_value(c, 3, ratio, autostart),
{
    lemma_keys_differ();
}

/// The key `announce_to_all_trackers` names its own setting.
proof fn lemma_key_4(c: Config, ratio: Seq<char>, autostart: bool)
    ensures
        setting_of("announce_to_all_trackers"@) == page_setting(4),
        value_text(c, "announce_to_all_trackers"@, ratio, autostart) == page_value(c, 4, ratio, autostart),
{
    lemma_keys_differ();
}

/// The key `announce_to_all_tiers` names its own setting.
proof fn lemma_key_5(c: Config, ratio: Seq<char>, autostart: bool)
    ensures
        setting_of("announce_to_all_tiers"@) == page_setting(5),
        value_text(c, "announce_to_all_tiers"@, ratio, autostart) == page_value(c, 5, ratio, autostart),
{
    lemma_keys_differ();
}

/// The key `proxy_type` names its own setting.
proof fn lemma_key_6(c: Config, ratio: Seq<char>, autostart: bool)
    ensures
        setting_of("proxy_type"@) == page_setting(6),
        value_text(c, "proxy_type"@, ratio, autostart) == page_value(c, 6, ratio, autostart),
{
    lemma_keys_differ();
}

/// The key `proxy_host` names its own setting.
proof fn lemma_key_7(c: Config, ratio: Seq<char>, autostart: bool)
    ensures
        setting_of("proxy_host"@) == page_setting(7),
        value_text(c, "proxy_host"@, ratio, autostart) == page_value(c, 7, ratio, autostart),
{
    lemma_keys_differ();
}

/// The key `proxy_port` names its own setting.
proof fn lemma_key_8(c: Config, ratio: Seq<char>, autostart: bool)
    ensures
        setting_of("proxy_port"@) == page_setting(8),
        value_text(c, "proxy_port"@, ratio, autostart) == page_value(c, 8, ratio, autostart),
{
    lemma_keys_differ();
}

/// The key `proxy_username` names its own setting.
proof fn lemma_key_9(c: Config, ratio: Seq<char>, autostart: bool)
    ensures
        setting_of("proxy_username"@) == page_setting(9),
        value_text(c, "proxy_username"@, ratio, autostart) == page_value(c, 9, ratio, autostart),
{
    lemma_keys_differ();
}

/// The key `proxy_password` names its own setting.
proof fn lemma_key_10(c: Config, ratio: Seq<char>, autostart: bool)
    ensures
        setting_of("proxy_password"@) == page_setting(10),
        value_text(c, "proxy_password"@, ratio, autostart) == page_value(c, 10, ratio, autostart),
{
    lemma_keys_differ();
}

/// The key `proxy_peer_connections` names its own setting.
proof fn lemma_key_11(c: Config, ratio: Seq<char>, autostart: bool)
    ensures
        setting_of("proxy_peer_connections"@) == page_setting(11),
        value_text(c, "proxy_peer_connections"@, ratio, autostart) == page_value(c, 11, ratio, autostart),
{
    lemma_keys_differ();
}

/// The key `proxy_tracker_connections` names its own setting.
proof fn lemma_key_12(c: Config, ratio: Seq<char>, autostart: bool)
    ensures
        setting_of("proxy_tracker_connections"@) == page_setting(12),
        value_text(c, "proxy_tracker_connections"@, ratio, autostart) == page_value(c, 12, ratio, autostart),
{
    lemma_keys_differ();
}

/// The key `listen_address` names its own setting.
proof fn lemma_key_13(c: Config, ratio: Seq<char>, autostart: bool)
    ensures
        setting_of("listen_address"@) == page_setting(13),
        value_text(c, "listen_address"@, ratio, autostart) == page_value(c, 13, ratio, autostart),
{
    lemma_keys_differ();
}

/// The key `listen_port` names its own setting.
proof fn lemma_key_14(c: Config, ratio: Seq<char>, autostart: bool)
    ensures
        setting_of("listen_port"@) == page_setting(14),
        value_text(c, "listen_port"@, ratio, autostart) == page_value(c, 14, ratio, autostart),
{
    lemma_keys_differ();
}

/// The key `enable_upnp` names its own setting.
proof fn lemma_key_15(c: Config, ratio: Seq<char>, autostart: bool)
    ensures
        setting_of("enable_upnp"@) == page_setting(15),
        value_text(c, "enable_upnp"@, ratio, autostart) == page_value(c, 15, ratio, autostart),
{
    lemma_keys_differ();
}

/// The key `enable_natpmp` names its own setting.
proof fn lemma_key_16(c: Config, ratio: Seq<char>, autostart: bool)
    ensures
        setting_of("enable_natpmp"@) == page_setting(16),
        value_text(c, "enable_natpmp"@, ratio, autostart) == page_value(c, 16, ratio, autostart),
{
    lemma_keys_differ();
}

/// The key `max_connections` names its own setting.
proof fn lemma_key_17(c: Config, ratio: Seq<char>, autostart: bool)
    ensures
        setting_of("max_connections"@) == page_setting(17),
        value_text(c, "max_connections"@, ratio, autostart) == page_value(c, 17, ratio, autostart),
{
    lemma_keys_differ();
}

/// The key `max_uploads` names its own setting.
proof fn lemma_key_18(c: Config, ratio: Seq<char>, autostart: bool)
    ensures
        setting_of("max_uploads"@) == page_setting(18),
        value_text(c, "max_uploads"@, ratio, autostart) == page_value(c, 18, ratio, autostart),
{
    lemma_keys_differ();
}

/// The key `download_rate_limit` names its own setting.
proof fn lemma_key_19(c: Config, ratio: Seq<char>, autostart: bool)
    ensures
        setting_of("download_rate_limit"@) == page_setting(19),
        value_text(c, "download_rate_limit"@, ratio, autostart) == page_value(c, 19, ratio, autostart),
{
    lemma_keys_differ();
}

/// The key `upload_rate_limit` names its own setting.
proof fn lemma_key_20(c: Config, ratio: Seq<char>, autostart: bool)
    ensures
        setting_of("upload_rate_limit"@) == page_setting(20),
        value_text(c, "upload_rate_limit"@, ratio, autostart) == page_value(c, 20, ratio, autostart),
{
    lemma_keys_differ();
}

/// The key `enable_dht` names its own setting.
proof fn lemma_key_21(c: Config, ratio: Seq<char>, autostart: bool)
    ensures
        setting_of("enable_dht"@) == page_setting(21),
        value_text(c, "enable_dht"@, ratio, autostart) == page_value(c, 21, ratio, autostart),
{
    lemma_keys_differ();
}

/// The key `enable_lsd` names its own setting.
proof fn lemma_key_22(c: Config, ratio: Seq<char>, autostart: bool)
    ensures
        setting_of("enable_lsd"@) == page_setting(22),
        value_text(c, "enable_lsd"@, ratio, autostart) == page_value(c, 22, ratio, autostart),
{
    lemma_keys_differ();
}

/// The key `enable_incoming_utp` names its own setting.
proof fn lemma_key_23(c: Config, ratio: Seq<char>, autostart: bool)
    ensures
        setting_of("enable_incoming_utp"@) == page_setting(23),
        value_text(c, "enable_incoming_utp"@, ratio, autostart) == page_value(c, 23, ratio, autostart),
{
    lemma_keys_differ();
}

/// The key `enable_outgoing_utp` names its own setting.
proof fn lemma_key_24(c: Config, ratio: Seq<char>, autostart: bool)
    ensures
        setting_of("enable_outgoing_utp"@) == page_setting(24),
        value_text(c, "enable_outgoing_utp"@, ratio, autostart) == page_value(c, 24, ratio, autostart),
{
    lemma_keys_differ();
}

/// The key `max_active_downloads` names its own setting.
proof fn lemma_key_25(c: Config, ratio: Seq<char>, autostart: bool)
    ensures
        setting_of("max_active_downloads"@) == page_setting(25),
        value_text(c, "max_active_downloads"@, ratio, autostart) == page_value(c, 25, ratio, autostart),
{
    lemma_keys_differ();
}

/// The key `max_active_uploads` names its own setting.
proof fn lemma_key_26(c: Config, ratio: Seq<char>, autostart: bool)
    ensures
        setting_of("max_active_uploads"@) == page_setting(26),
        value_text(c, "max_active_uploads"@, ratio, autostart) == page_value(c, 26, ratio, autostart),
{
    lemma_keys_differ();
}

/// The key `max_active_torrents` names its own setting.
proof fn lemma_key_27(c: Config, ratio: Seq<char>, autostart: bool)
    ensures
        setting_of("max_active_torrents"@) == page_setting(27),
        value_text(c, "max_active_torrents"@, ratio, autostart) == page_value(c, 27, ratio, autostart),
{
    lemma_keys_differ();
}

/// The key `seed_ratio_limit` names its own setting.
proof fn lemma_key_28(c: Config, ratio: Seq<char>, autostart: bool)
    ensures
        setting_of("seed_ratio_limit"@) == page_setting(28),
        value_text(c, "seed_ratio_limit"@, ratio, autostart) == page_value(c, 28, ratio, autostart),
{
    lemma_keys_differ();
}

/// The key `seed_time_limit` names its own setting.
proof fn lemma_key_29(c: Config, ratio: Seq<char>, autostart: bool)
    ensures
        setting_of("seed_time_limit"@) == page_setting(29),
        value_text(c, "seed_time_limit"@, ratio, autostart) == page_value(c, 29, ratio, autostart),
{
    lemma_keys_differ();
}

/// The key `default_save_path` names its own setting.
proof fn lemma_key_30(c: Config, ratio: Seq<char>, autostart: bool)
    ensures
        setting_of("default_save_path"@) == page_setting(30),
        value_text(c, "default_save_path"@, ratio, autostart) == page_value(c, 30, ratio, autostart),
{
    lemma_keys_differ();
}

/// The key `watch_directories` names its own setting.
proof fn lemma_key_31(c: Config, ratio: Seq<char>, autostart: bool)
    ensures
        setting_of("watch_directories"@) == page_setting(31),
        value_text(c, "watch_directories"@, ratio, autostart) == page_value(c, 31, ratio, autostart),
{
    lemma_keys_differ();
}

/// The key `autostart` names its own setting.
proof fn lemma_key_32(c: Config, ratio: Seq<char>, autostart: bool)
    ensures
        setting_of("autostart"@) == page_setting(32),
        value_text(c, "autostart"@, ratio, autostart) == page_value(c, 32, ratio, autostart),
{
    lemma_keys_differ();
}

/// Each key of the page names its own setting.
proof fn lemma_keys_name_their_settings(i: int, c: Config, ratio: Seq<char>, autostart: bool)
    requires
        0 <= i < FIELD_COUNT,
    ensures
        setting_of(key_text(i)) == page_setting(i),
        value_text(c, key_text(i), ratio, autostart) == page_value(c, i, ratio, autostart),
{
    if i == 0 {
        lemma_key_0(c, ratio, autostart);
    } else if i == 1 {
        lemma_key_1(c, ratio, autostart);
    } else if i == 2 {
        lemma_key_2(c, ratio, autostart);
    } else if i == 3 {
        lemma_key_3(c, ratio, autostart);
    } else if i == 4 {
        lemma_key_4(c, ratio, autostart);
    } else if i == 5 {
        lemma_key_5(c, ratio, autostart);
    } else if i == 6 {
        lemma_key_6(c, ratio, autostart);
    } else if i == 7 {
        lemma_key_7(c, ratio, autostart);
    } else if i == 8 {
        lemma_key_8(c, ratio, autostart);
    } else if i == 9 {
        lemma_key_9(c, ratio, autostart);
    } else if i == 10 {
        lemma_key_10(c, ratio, autostart);
    } else if i == 11 {
        lemma_key_11(c, ratio, autostart);
    } else if i == 12 {
        lemma_key_12(c, ratio, autostart);
    } else if i == 13 {
        lemma_key_13(c, ratio, autostart);
    } else if i == 14 {
        lemma_key_14(c, ratio, autostart);
    } else if i == 15 {
        lemma_key_15(c, ratio, autostart);
    } else if i == 16 {
        lemma_key_16(c, ratio, autostart);
    } else if i == 17 {
        lemma_key_17(c, ratio, autostart);
    } else if i == 18 {
        lemma_key_18(c, ratio, autostart);
    } else if i == 19 {
        lemma_key_19(c, ratio, autostart);
    } else if i == 20 {
        lemma_key_20(c, ratio, autostart);
    } else if i == 21 {
        lemma_key_21(c, ratio, autostart);
    } else if i == 22 {
        lemma_key_22(c, ratio, autostart);
    } else if i == 23 {
        lemma_key_23(c, ratio, autostart);
    } else if i == 24 {
        lemma_key_24(c, ratio, autostart);
    } else if i == 25 {
        lemma_key_25(c, ratio, autostart);
    } else if i == 26 {
        lemma_key_26(c, ratio, autostart);
    } else if i == 27 {
        lemma_key_27(c, ratio, autostart);
    } else if i == 28 {
        lemma_key_28(c, ratio, autostart);
    } else if i == 29 {
        lemma_key_29(c, ratio, autostart);
    } else if i == 30 {
        lemma_key_30(c, ratio, autostart);
    } else if i == 31 {
        lemma_key_31(c, ratio, autostart);
    } else if i == 32 {
        lemma_key_32(c, ratio, autostart);
    }
}

/// What a setting that takes the value shows from then on. `ratio` is the ratio limit as it is
/// written.
pub open spec fn shown_after(setting: Setting, value: Seq<char>, ratio: Seq<char>) -> Seq<char> {
    match setting {
        Setting::Text(_) => value,
        Setting::Choice(_) => value,
        Setting::Flag(_) => bool_text(affirms(value)),
        Setting::Port(_) => decimal(port_of(value)->Ok_0 as int),
        Setting::Number(_) => decimal(number_of(value)->Ok_0 as int),
        Setting::SeedRatioLimit => ratio,
        Setting::WatchDirectories => Seq::empty(),
    }
}

/// Storing `anonymous_mode` changes what it shows, and nothing else.
proof fn lemma_put_0(
    j: int,
    value: Seq<char>,
    number: Result<Real64, Seq<char>>,
    before: Config,
    after: Config,
    ratio: Seq<char>,
    autostart: bool,
)
    requires
        value_set(before, after, Setting::Flag(FlagKey::AnonymousMode), value, number),
    ensures
        page_value(after, j, ratio, autostart) == (if j == 0 {
            shown_after(Setting::Flag(FlagKey::AnonymousMode), value, ratio)
        } else {
            page_value(before, j, ratio, autostart)
        }),
{
}

/// Storing `encryption_mode` changes what it shows, and nothing else.
proof fn lemma_put_1(
    j: int,
    value: Seq<char>,
    number: Result<Real64, Seq<char>>,
    before: Config,
    after: Config,
    ratio: Seq<char>,
    autostart: bool,
)
    requires
        value_set(before, after, Setting::Choice(ChoiceKey::EncryptionMode), value, number),
    ensures
        page_value(after, j, ratio, autostart) == (if j == 1 {
            shown_after(Setting::Choice(ChoiceKey::EncryptionMode), value, ratio)
        } else {
            page_value(before, j, ratio, autostart)
        }),
{
    let s = choose|s: String| s@ == value && after == #[trigger] with_choice(before, ChoiceKey::EncryptionMode, s);
    assert(after == (Config { encryption_mode: s, ..before }));
}

/// Storing `ssrf_mitigation` changes what it shows, and nothing else.
proof fn lemma_put_2(
    j: int,
    value: Seq<char>,
    number: Result<Real64, Seq<char>>,
    before: Config,
    after: Config,
    ratio: Seq<char>,
    autostart: bool,
)
    requires
        value_set(before, after, Setting::Flag(FlagKey::SsrfMitigation), value, number),
    ensures
        page_value(after, j, ratio, autostart) == (if j == 2 {
            shown_after(Setting::Flag(FlagKey::SsrfMitigation), value, ratio)
        } else {
            page_value(before, j, ratio, autostart)
        }),
{
}

/// Storing `validate_https_tracker_certificate` changes what it shows, and nothing else.
proof fn lemma_put_3(
    j: int,
    value: Seq<char>,
    number: Result<Real64, Seq<char>>,
    before: Config,
    after: Config,
    ratio: Seq<char>,
    autostart: bool,
)
    requires
        value_set(before, after, Setting::Flag(FlagKey::ValidateHttpsTrackerCertificate), value, number),
    ensures
        page_value(after, j, ratio, autostart) == (if j == 3 {
            shown_after(Setting::Flag(FlagKey::ValidateHttpsTrackerCertificate), value, ratio)
        } else {
            page_value(before, j, ratio, autostart)
        }),
{
}

/// Storing `announce_to_all_trackers` changes what it shows, and nothing else.
proof fn lemma_put_4(
    j: int,
    value: Seq<char>,
    number: Result<Real64, Seq<char>>,
    before: Config,
    after: Config,
    ratio: Seq<char>,
    autostart: bool,
)
    requires
        value_set(before, after, Setting::Flag(FlagKey::AnnounceToAllTrackers), value, number),
    ensures
        page_value(after, j, ratio, autostart) == (if j == 4 {
            shown_after(Setting::Flag(FlagKey::AnnounceToAllTrackers), value, ratio)
        } else {
            page_value(before, j, ratio, autostart)
        }),
{
}

/// Storing `announce_to_all_tiers` changes what it shows, and nothing else.
proof fn lemma_put_5(
    j: int,
    value: Seq<char>,
    number: Result<Real64, Seq<char>>,
    before: Config,
    after: Config,
    ratio: Seq<char>,
    autostart: bool,
)
    requires
        value_set(before, after, Setting::Flag(FlagKey::AnnounceToAllTiers), value, number),
    ensures
        page_value(after, j, ratio, autostart) == (if j == 5 {
            shown_after(Setting::Flag(FlagKey::AnnounceToAllTiers), value, ratio)
        } else {
            page_value(before, j, ratio, autostart)
        }),
{
}

/// Storing `proxy_type` changes what it shows, and nothing else.
proof fn lemma_put_6(
    j: int,
    value: Seq<char>,
    number: Result<Real64, Seq<char>>,
    before: Config,
    after: Config,
    ratio: Seq<char>,
    autostart: bool,
)
    requires
        value_set(before, after, Setting::Choice(ChoiceKey::ProxyType), value, number),
    ensures
        page_value(after, j, ratio, autostart) == (if j == 6 {
            shown_after(Setting::Choice(ChoiceKey::ProxyType), value, ratio)
        } else {
            page_value(before, j, ratio, autostart)
        }),
{
    let s = choose|s: String| s@ == value && after == #[trigger] with_choice(before, ChoiceKey::ProxyType, s);
    assert(after == (Config { proxy_type: s, ..before }));
}

/// Storing `proxy_host` changes what it shows, and nothing else.
proof fn lemma_put_7(
    j: int,
    value: Seq<char>,
    number: Result<Real64, Seq<char>>,
    before: Config,
    after: Config,
    ratio: Seq<char>,
    autostart: bool,
)
    requires
        value_set(before, after, Setting::Text(TextKey::ProxyHost), value, number),
    ensures
        page_value(after, j, ratio, autostart) == (if j == 7 {
            shown_after(Setting::Text(TextKey::ProxyHost), value, ratio)
        } else {
            page_value(before, j, ratio, autostart)
        }),
{
    let s = choose|s: String| s@ == value && after == #[trigger] with_text(before, TextKey::ProxyHost, s);
    assert(after == (Config { proxy_host: s, ..before }));
}

/// Storing `proxy_port` changes what it shows, and nothing else.
proof fn lemma_put_8(
    j: int,
    value: Seq<char>,
    number: Result<Real64, Seq<char>>,
    before: Config,
    after: Config,
    ratio: Seq<char>,
    autostart: bool,
)
    requires
        value_set(before, after, Setting::Port(PortKey::ProxyPort), value, number),
    ensures
        page_value(after, j, ratio, autostart) == (if j == 8 {
            shown_after(Setting::Port(PortKey::ProxyPort), value, ratio)
        } else {
            page_value(before, j, ratio, autostart)
        }),
{
}

/// Storing `proxy_username` changes what it shows, and nothing else.
proof fn lemma_put_9(
    j: int,
    value: Seq<char>,
    number: Result<Real64, Seq<char>>,
    before: Config,
    after: Config,
    ratio: Seq<char>,
    autostart: bool,
)
    requires
        value_set(before, after, Setting::Text(TextKey::ProxyUsername), value, number),
    ensures
        page_value(after, j, ratio, autostart) == (if j == 9 {
            shown_after(Setting::Text(TextKey::ProxyUsername), value, ratio)
        } else {
            page_value(before, j, ratio, autostart)
        }),
{
    let s = choose|s: String| s@ == value && after == #[trigger] with_text(before, TextKey::ProxyUsername, s);
    assert(after == (Config { proxy_username: s, ..before }));
}

/// Storing `proxy_password` changes what it shows, and nothing else.
proof fn lemma_put_10(
    j: int,
    value: Seq<char>,
    number: Result<Real64, Seq<char>>,
    before: Config,
    after: Config,
    ratio: Seq<char>,
    autostart: bool,
)
    requires
        value_set(before, after, Setting::Text(TextKey::ProxyPassword), value, number),
    ensures
        page_value(after, j, ratio, autostart) == (if j == 10 {
            shown_after(Setting::Text(TextKey::ProxyPassword), value, ratio)
        } else {
            page_value(before, j, ratio, autostart)
        }),
{
    let s = choose|s: String| s@ == value && after == #[trigger] with_text(before, TextKey::ProxyPassword, s);
    assert(after == (Config { proxy_password: s, ..before }));
}

/// Storing `proxy_peer_connections` changes what it shows, and nothing else.
proof fn lemma_put_11(
    j: int,
    value: Seq<char>,
    number: Result<Real64, Seq<char>>,
    before: Config,
    after: Config,
    ratio: Seq<char>,
    autostart: bool,
)
    requires
        value_set(before, after, Setting::Flag(FlagKey::ProxyPeerConnections), value, number),
    ensures
        page_value(after, j, ratio, autostart) == (if j == 11 {
            shown_after(Setting::Flag(FlagKey::ProxyPeerConnections), value, ratio)
        } else {
            page_value(before, j, ratio, autostart)
        }),
{
}

/// Storing `proxy_tracker_connections` changes what it shows, and nothing else.
proof fn lemma_put_12(
    j: int,
    value: Seq<char>,
    number: Result<Real64, Seq<char>>,
    before: Config,
    after: Config,
    ratio: Seq<char>,
    autostart: bool,
)
    requires
        value_set(before, after, Setting::Flag(FlagKey::ProxyTrackerConnections), value, number),
    ensures
        page_value(after, j, ratio, autostart) == (if j == 12 {
            shown_after(Setting::Flag(FlagKey::ProxyTrackerConnections), value, ratio)
        } else {
            page_value(before, j, ratio, autostart)
        }),
{
}

/// Storing `listen_address` changes what it shows, and nothing else.
proof fn lemma_put_13(
    j: int,
    value: Seq<char>,
    number: Result<Real64, Seq<char>>,
    before: Config,
    after: Config,
    ratio: Seq<char>,
    autostart: bool,
)
    requires
        value_set(before, after, Setting::Text(TextKey::ListenAddress), value, number),
    ensures
        page_value(after, j, ratio, autostart) == (if j == 13 {
            shown_after(Setting::Text(TextKey::ListenAddress), value, ratio)
        } else {
            page_value(before, j, ratio, autostart)
        }),
{
    let s = choose|s: String| s@ == value && after == #[trigger] with_text(before, TextKey::ListenAddress, s);
    assert(after == (Config { listen_address: s, ..before }));
}

/// Storing `listen_port` changes what it shows, and nothing else.
proof fn lemma_put_14(
    j: int,
    value: Seq<char>,
    number: Result<Real64, Seq<char>>,
    before: Config,
    after: Config,
    ratio: Seq<char>,
    autostart: bool,
)
    requires
        value_set(before, after, Setting::Port(PortKey::ListenPort), value, number),
    ensures
        page_value(after, j, ratio, autostart) == (if j == 14 {
            shown_after(Setting::Port(PortKey::ListenPort), value, ratio)
        } else {
            page_value(before, j, ratio, autostart)
        }),
{
}

/// Storing `enable_upnp` changes what it shows, and nothing else.
proof fn lemma_put_15(
    j: int,
    value: Seq<char>,
    number: Result<Real64, Seq<char>>,
    before: Config,
    after: Config,
    ratio: Seq<char>,
    autostart: bool,
)
    requires
        value_set(before, after, Setting::Flag(FlagKey::EnableUpnp), value, number),
    ensures
        page_value(after, j, ratio, autostart) == (if j == 15 {
            shown_after(Setting::Flag(FlagKey::EnableUpnp), value, ratio)
        } else {
            page_value(before, j, ratio, autostart)
        }),
{
}

/// Storing `enable_natpmp` changes what it shows, and nothing else.
proof fn lemma_put_16(
    j: int,
    value: Seq<char>,
    number: Result<Real64, Seq<char>>,
    before: Config,
    after: Config,
    ratio: Seq<char>,
    autostart: bool,
)
    requires
        value_set(before, after, Setting::Flag(FlagKey::EnableNatpmp), value, number),
    ensures
        page_value(after, j, ratio, autostart) == (if j == 16 {
            shown_after(Setting::Flag(FlagKey::EnableNatpmp), value, ratio)
        } else {
            page_value(before, j, ratio, autostart)
        }),
{
}

/// Storing `max_connections` changes what it shows, and nothing else.
proof fn lemma_put_17(
    j: int,
    value: Seq<char>,
    number: Result<Real64, Seq<char>>,
    before: Config,
    after: Config,
    ratio: Seq<char>,
    autostart: bool,
)
    requires
        value_set(before, after, Setting::Number(NumberKey::MaxConnections), value, number),
    ensures
        page_value(after, j, ratio, autostart) == (if j == 17 {
            shown_after(Setting::Number(NumberKey::MaxConnections), value, ratio)
        } else {
            page_value(before, j, ratio, autostart)
        }),
{
}

/// Storing `max_uploads` changes what it shows, and nothing else.
proof fn lemma_put_18(
    j: int,
    value: Seq<char>,
    number: Result<Real64, Seq<char>>,
    before: Config,
    after: Config,
    ratio: Seq<char>,
    autostart: bool,
)
    requires
        value_set(before, after, Setting::Number(NumberKey::MaxUploads), value, number),
    ensures
        page_value(after, j, ratio, autostart) == (if j == 18 {
            shown_after(Setting::Number(NumberKey::MaxUploads), value, ratio)
        } else {
            page_value(before, j, ratio, autostart)
        }),
{
}

/// Storing `download_rate_limit` changes what it shows, and nothing else.
proof fn lemma_put_19(
    j: int,
    value: Seq<char>,
    number: Result<Real64, Seq<char>>,
    before: Config,
    after: Config,
    ratio: Seq<char>,
    autostart: bool,
)
    requires
        value_set(before, after, Setting::Number(NumberKey::DownloadRateLimit), value, number),
    ensures
        page_value(after, j, ratio, autostart) == (if j == 19 {
            shown_after(Setting::Number(NumberKey::DownloadRateLimit), value, ratio)
        } else {
            page_value(before, j, ratio, autostart)
        }),
{
}

/// Storing `upload_rate_limit` changes what it shows, and nothing else.
proof fn lemma_put_20(
    j: int,
    value: Seq<char>,
    number: Result<Real64, Seq<char>>,
    before: Config,
    after: Config,
    ratio: Seq<char>,
    autostart: bool,
)
    requires
        value_set(before, after, Setting::Number(NumberKey::UploadRateLimit), value, number),
    ensures
        page_value(after, j, ratio, autostart) == (if j == 20 {
            shown_after(Setting::Number(NumberKey::UploadRateLimit), value, ratio)
        } else {
            page_value(before, j, ratio, autostart)
        }),
{
}

/// Storing `enable_dht` changes what it shows, and nothing else.
proof fn lemma_put_21(
    j: int,
    value: Seq<char>,
    number: Result<Real64, Seq<char>>,
    before: Config,
    after: Config,
    ratio: Seq<char>,
    autostart: bool,
)
    requires
        value_set(before, after, Setting::Flag(FlagKey::EnableDht), value, number),
    ensures
        page_value(after, j, ratio, autostart) == (if j == 21 {
            shown_after(Setting::Flag(FlagKey::EnableDht), value, ratio)
        } else {
            page_value(before, j, ratio, autostart)
        }),
{
}

/// Storing `enable_lsd` changes what it shows, and nothing else.
proof fn lemma_put_22(
    j: int,
    value: Seq<char>,
    number: Result<Real64, Seq<char>>,
    before: Config,
    after: Config,
    ratio: Seq<char>,
    autostart: bool,
)
    requires
        value_set(before, after, Setting::Flag(FlagKey::EnableLsd), value, number),
    ensures
        page_value(after, j, ratio, autostart) == (if j == 22 {
            shown_after(Setting::Flag(FlagKey::EnableLsd), value, ratio)
        } else {
            page_value(before, j, ratio, autostart)
        }),
{
}

/// Storing `enable_incoming_utp` changes what it shows, and nothing else.
proof fn lemma_put_23(
    j: int,
    value: Seq<char>,
    number: Result<Real64, Seq<char>>,
    before: Config,
    after: Config,
    ratio: Seq<char>,
    autostart: bool,
)
    requires
        value_set(before, after, Setting::Flag(FlagKey::EnableIncomingUtp), value, number),
    ensures
        page_value(after, j, ratio, autostart) == (if j == 23 {
            shown_after(Setting::Flag(FlagKey::EnableIncomingUtp), value, ratio)
        } else {
            page_value(before, j, ratio, autostart)
        }),
{
}

/// Storing `enable_outgoing_utp` changes what it shows, and nothing else.
proof fn lemma_put_24(
    j: int,
    value: Seq<char>,
    number: Result<Real64, Seq<char>>,
    before: Config,
    after: Config,
    ratio: Seq<char>,
    autostart: bool,
)
    requires
        value_set(before, after, Setting::Flag(FlagKey::EnableOutgoingUtp), value, number),
    ensures
        page_value(after, j, ratio, autostart) == (if j == 24 {
            shown_after(Setting::Flag(FlagKey::EnableOutgoingUtp), value, ratio)
        } else {
            page_value(before, j, ratio, autostart)
        }),
{
}

/// Storing `max_active_downloads` changes what it shows, and nothing else.
proof fn lemma_put_25(
    j: int,
    value: Seq<char>,
    number: Result<Real64, Seq<char>>,
    before: Config,
    after: Config,
    ratio: Seq<char>,
    autostart: bool,
)
    requires
        value_set(before, after, Setting::Number(NumberKey::MaxActiveDownloads), value, number),
    ensures
        page_value(after, j, ratio, autostart) == (if j == 25 {
            shown_after(Setting::Number(NumberKey::MaxActiveDownloads), value, ratio)
        } else {
            page_value(before, j, ratio, autostart)
        }),
{
}

/// Storing `max_active_uploads` changes what it shows, and nothing else.
proof fn lemma_put_26(
    j: int,
    value: Seq<char>,
    number: Result<Real64, Seq<char>>,
    before: Config,
    after: Config,
    ratio: Seq<char>,
    autostart: bool,
)
    requires
        value_set(before, after, Setting::Number(NumberKey::MaxActiveUploads), value, number),
    ensures
        page_value(after, j, ratio, autostart) == (if j == 26 {
            shown_after(Setting::Number(NumberKey::MaxActiveUploads), value, ratio)
        } else {
            page_value(before, j, ratio, autostart)
        }),
{
}

/// Storing `max_active_torrents` changes what it shows, and nothing else.
proof fn lemma_put_27(
    j: int,
    value: Seq<char>,
    number: Result<Real64, Seq<char>>,
    before: Config,
    after: Config,
    ratio: Seq<char>,
    autostart: bool,
)
    requires
        value_set(before, after, Setting::Number(NumberKey::MaxActiveTorrents), value, number),
    ensures
        page_value(after, j, ratio, autostart) == (if j == 27 {
            shown_after(Setting::Number(NumberKey::MaxActiveTorrents), value, ratio)
        } else {
            page_value(before, j, ratio, autostart)
        }),
{
}

/// Storing `seed_ratio_limit` changes what it shows, and nothing else.
proof fn lemma_put_28(
    j: int,
    value: Seq<char>,
    number: Result<Real64, Seq<char>>,
    before: Config,
    after: Config,
    ratio: Seq<char>,
    autostart: bool,
)
    requires
        value_set(before, after, Setting::SeedRatioLimit, value, number),
    ensures
        page_value(after, j, ratio, autostart) == (if j == 28 {
            shown_after(Setting::SeedRatioLimit, value, ratio)
        } else {
            page_value(before, j, ratio, autostart)
        }),
{
}

/// Storing `seed_time_limit` changes what it shows, and nothing else.
proof fn lemma_put_29(
    j: int,
    value: Seq<char>,
    number: Result<Real64, Seq<char>>,
    before: Config,
    after: Config,
    ratio: Seq<char>,
    autostart: bool,
)
    requires
        value_set(before, after, Setting::Number(NumberKey::SeedTimeLimit), value, number),
    ensures
        page_value(after, j, ratio, autostart) == (if j == 29 {
            shown_after(Setting::Number(NumberKey::SeedTimeLimit), value, ratio)
        } else {
            page_value(before, j, ratio, autostart)
        }),
{
}

/// Storing `default_save_path` changes what it shows, and nothing else.
proof fn lemma_put_30(
    j: int,
    value: Seq<char>,
    number: Result<Real64, Seq<char>>,
    before: Config,
    after: Config,
    ratio: Seq<char>,
    autostart: bool,
)
    requires
        value_set(before, after, Setting::Text(TextKey::DefaultSavePath), value, number),
    ensures
        page_value(after, j, ratio, autostart) == (if j == 30 {
            shown_after(Setting::Text(TextKey::DefaultSavePath), value, ratio)
        } else {
            page_value(before, j, ratio, autostart)
        }),
{
    let s = choose|s: String| s@ == value && after == #[trigger] with_text(before, TextKey::DefaultSavePath, s);
    assert(after == (Config { default_save_path: s, ..before }));
}

/// The setting that was stored holds what was stored, and another one holds what it held.
proof fn lemma_stored(
    i: int,
    j: int,
    setting: Setting,
    value: Seq<char>,
    number: Result<Real64, Seq<char>>,
    before: Config,
    after: Config,
    ratio: Seq<char>,
    autostart: bool,
)
    requires
        page_setting(i) == Some(setting),
        value_set(before, after, setting, value, number),
    ensures
        page_value(after, j, ratio, autostart) == (if j == i {
            shown_after(setting, value, ratio)
        } else {
            page_value(before, j, ratio, autostart)
        }),
{
    if i == 0 {
        lemma_put_0(j, value, number, before, after, ratio, autostart);
    } else if i == 1 {
        lemma_put_1(j, value, number, before, after, ratio, autostart);
    } else if i == 2 {
        lemma_put_2(j, value, number, before, after, ratio, autostart);
    } else if i == 3 {
        lemma_put_3(j, value, number, before, after, ratio, autostart);
    } else if i == 4 {
        lemma_put_4(j, value, number, before, after, ratio, autostart);
    } else if i == 5 {
        lemma_put_5(j, value, number, before, after, ratio, autostart);
    } else if i == 6 {
        lemma_put_6(j, value, number, before, after, ratio, autostart);
    } else if i == 7 {
        lemma_put_7(j, value, number, before, after, ratio, autostart);
    } else if i == 8 {
        lemma_put_8(j, value, number, before, after, ratio, autostart);
    } else if i == 9 {
        lemma_put_9(j, value, number, before, after, ratio, autostart);
    } else if i == 10 {
        lemma_put_10(j, value, number, before, after, ratio, autostart);
    } else if i == 11 {
        lemma_put_11(j, value, number, before, after, ratio, autostart);
    } else if i == 12 {
        lemma_put_12(j, value, number, before, after, ratio, autostart);
    } else if i == 13 {
        lemma_put_13(j, value, number, before, after, ratio, autostart);
    } else if i == 14 {
        lemma_put_14(j, value, number, before, after, ratio, autostart);
    } else if i == 15 {
        lemma_put_15(j, value, number, before, after, ratio, autostart);
    } else if i == 16 {
        lemma_put_16(j, value, number, before, after, ratio, autostart);
    } else if i == 17 {
        lemma_put_17(j, value, number, before, after, ratio, autostart);
    } else if i == 18 {
        lemma_put_18(j, value, number, before, after, ratio, autostart);
    } else if i == 19 {
        lemma_put_19(j, value, number, before, after, ratio, autostart);
    } else if i == 20 {
        lemma_put_20(j, value, number, before, after, ratio, autostart);
    } else if i == 21 {
        lemma_put_21(j, value, number, before, after, ratio, autostart);
    } else if i == 22 {
        lemma_put_22(j, value, number, before, after, ratio, autostart);
    } else if i == 23 {
        lemma_put_23(j, value, number, before, after, ratio, autostart);
    } else if i == 24 {
        lemma_put_24(j, value, number, before, after, ratio, autostart);
    } else if i == 25 {
        lemma_put_25(j, value, number, before, after, ratio, autostart);
    } else if i == 26 {
        lemma_put_26(j, value, number, before, after, ratio, autostart);
    } else if i == 27 {
        lemma_put_27(j, value, number, before, after, ratio, autostart);
    } else if i == 28 {
        lemma_put_28(j, value, number, before, after, ratio, autostart);
    } else if i == 29 {
        lemma_put_29(j, value, number, before, after, ratio, autostart);
    } else if i == 30 {
        lemma_put_30(j, value, number, before, after, ratio, autostart);
    }
}

/// A setting of the page that was stored shows what was stored: a text or a word as it is, a
/// switch as on or off, a number in its plain form.
pub proof fn law_stored_settings_are_shown(
    i: int,
    setting: Setting,
    value: Seq<char>,
    number: Result<Real64, Seq<char>>,
    before: Config,
    after: Config,
    ratio: Seq<char>,
    autostart: bool,
)
    requires
        0 <= i < FIELD_COUNT,
        setting_of(key_text(i)) == Some(setting),
        set_refusal(setting, value, number) is None,
        value_set(before, after, setting, value, number),
    ensures
        value_text(after, key_text(i), ratio, autostart) == shown_after(setting, value, ratio),
{
    lemma_keys_name_their_settings(i, after, ratio, autostart);
    lemma_stored(i, i, setting, value, number, before, after, ratio, autostart);
}

/// Storing one setting leaves every other one of the page as it was.
pub proof fn law_other_settings_stay(
    i: int,
    j: int,
    setting: Setting,
    value: Seq<char>,
    number: Result<Real64, Seq<char>>,
    before: Config,
    after: Config,
    ratio: Seq<char>,
    autostart: bool,
)
    requires
        0 <= i < FIELD_COUNT,
        0 <= j < FIELD_COUNT,
        i != j,
        setting_of(key_text(i)) == Some(setting),
        value_set(before, after, setting, value, number),
    ensures
        value_text(after, key_text(j), ratio, autostart) == value_text(
            before,
            key_text(j),
            ratio,
            autostart,
        ),
{
    lemma_keys_name_their_settings(i, after, ratio, autostart);
    lemma_keys_name_their_settings(j, after, ratio, autostart);
    lemma_keys_name_their_settings(j, before, ratio, autostart);
    lemma_stored(i, j, setting, value, number, before, after, ratio, autostart);
}

} // verus!
