//! What the configuration comes to by what is set and by what is stored.

use crate::binary64::Real64;
use crate::config::{healed, normal_path, recorded, without, Config};
use crate::integers::written;
use crate::ipc::Response;
use crate::requests::config_changed;
use crate::server::{App, Effect, Handling, SaveFile};
use crate::text::{decimal, filled_lines, split, texts, trim};
use crate::text_laws::{law_decimals_are_read_back, law_trimming_a_character};
use crate::tui::setting_laws::lemma_keys_differ;
use vstd::prelude::*;

verus! {

// ----- setting values -----

/// A change was accepted: the configuration is to be stored.
pub open spec fn accepted(out: Handling) -> bool {
    out matches Handling::Reply(a) && a.save == Some(SaveFile::Config)
}

/// A text is stored in the setting that its key names, and nothing else changes.
pub proof fn law_texts_go_to_their_settings(
    before: App,
    after: App,
    key: Seq<char>,
    value: Seq<char>,
    ratio: Result<Real64, Seq<char>>,
    out: Handling,
)
    requires
        config_changed(before, after, key, value, ratio, out),
        accepted(out),
    ensures
        key == "listen_address"@ ==> after.config == (Config {
            listen_address: after.config.listen_address,
            ..before.config
        }) && after.config.listen_address@ == value,
        key == "default_save_path"@ ==> after.config == (Config {
            default_save_path: after.config.default_save_path,
            ..before.config
        }) && after.config.default_save_path@ == value,
        key == "proxy_host"@ ==> after.config == (Config {
            proxy_host: after.config.proxy_host,
            ..before.config
        }) && after.config.proxy_host@ == value,
        key == "proxy_username"@ ==> after.config == (Config {
            proxy_username: after.config.proxy_username,
            ..before.config
        }) && after.config.proxy_username@ == value,
        key == "proxy_password"@ ==> after.config == (Config {
            proxy_password: after.config.proxy_password,
            ..before.config
        }) && after.config.proxy_password@ == value,
{
    lemma_keys_differ();
}

/// A word is stored in the setting that its key names, and nothing else changes.
pub proof fn law_words_go_to_their_settings(
    before: App,
    after: App,
    key: Seq<char>,
    value: Seq<char>,
    ratio: Result<Real64, Seq<char>>,
    out: Handling,
)
    requires
        config_changed(before, after, key, value, ratio, out),
        accepted(out),
    ensures
        key == "default_content_layout"@ ==> after.config == (Config {
            default_content_layout: after.config.default_content_layout,
            ..before.config
        }) && after.config.default_content_layout@ == value,
        key == "rename_merge_same"@ ==> after.config == (Config {
            rename_merge_same: after.config.rename_merge_same,
            ..before.config
        }) && after.config.rename_merge_same@ == value,
        key == "rename_merge_unrelated"@ ==> after.config == (Config {
            rename_merge_unrelated: after.config.rename_merge_unrelated,
            ..before.config
        }) && after.config.rename_merge_unrelated@ == value,
        key == "rename_untracked_files"@ ==> after.config == (Config {
            rename_untracked_files: after.config.rename_untracked_files,
            ..before.config
        }) && after.config.rename_untracked_files@ == value,
        key == "encryption_mode"@ ==> after.config == (Config {
            encryption_mode: after.config.encryption_mode,
            ..before.config
        }) && after.config.encryption_mode@ == value,
        key == "seed_ratio_action"@ ==> after.config == (Config {
            seed_ratio_action: after.config.seed_ratio_action,
            ..before.config
        }) && after.config.seed_ratio_action@ == value,
        key == "proxy_type"@ ==> after.config == (Config {
            proxy_type: after.config.proxy_type,
            ..before.config
        }) && after.config.proxy_type@ == value,
{
    lemma_keys_differ();
}

/// A switch is on after `true`, `1` or `yes` and off after anything else, and nothing else
/// changes.
pub proof fn law_switches_go_to_their_settings(
    before: App,
    after: App,
    key: Seq<char>,
    value: Seq<char>,
    ratio: Result<Real64, Seq<char>>,
    out: Handling,
)
    requires
        config_changed(before, after, key, value, ratio, out),
        accepted(out),
    ensures
        key == "enable_dht"@ || key == "dht"@ ==> after.config == (Config {
            enable_dht: after.config.enable_dht,
            ..before.config
        }) && after.config.enable_dht == (value == "true"@ || value == "1"@ || value
            == "yes"@),
        key == "enable_lsd"@ || key == "lsd"@ ==> after.config == (Config {
            enable_lsd: after.config.enable_lsd,
            ..before.config
        }) && after.config.enable_lsd == (value == "true"@ || value == "1"@ || value
            == "yes"@),
        key == "enable_upnp"@ || key == "upnp"@ ==> after.config == (Config {
            enable_upnp: after.config.enable_upnp,
            ..before.config
        }) && after.config.enable_upnp == (value == "true"@ || value == "1"@ || value
            == "yes"@),
        key == "enable_natpmp"@ || key == "natpmp"@ ==> after.config == (Config {
            enable_natpmp: after.config.enable_natpmp,
            ..before.config
        }) && after.config.enable_natpmp == (value == "true"@ || value == "1"@ || value
            == "yes"@),
        key == "anonymous_mode"@ ==> after.config == (Config {
            anonymous_mode: after.config.anonymous_mode,
            ..before.config
        }) && after.config.anonymous_mode == (value == "true"@ || value == "1"@ || value
            == "yes"@),
        key == "ssrf_mitigation"@ ==> after.config == (Config {
            ssrf_mitigation: after.config.ssrf_mitigation,
            ..before.config
        }) && after.config.ssrf_mitigation == (value == "true"@ || value == "1"@ || value
            == "yes"@),
        key == "validate_https_tracker_certificate"@ || key == "validate_https"@ ==> after.config == (Config {
            validate_https_tracker_certificate: after.config.validate_https_tracker_certificate,
            ..before.config
        }) && after.config.validate_https_tracker_certificate == (value == "true"@ || value == "1"@ || value
            == "yes"@),
        key == "enable_incoming_utp"@ || key == "incoming_utp"@ ==> after.config == (Config {
            enable_incoming_utp: after.config.enable_incoming_utp,
            ..before.config
        }) && after.config.enable_incoming_utp == (value == "true"@ || value == "1"@ || value
            == "yes"@),
        key == "enable_outgoing_utp"@ || key == "outgoing_utp"@ ==> after.config == (Config {
            enable_outgoing_utp: after.config.enable_outgoing_utp,
            ..before.config
        }) && after.config.enable_outgoing_utp == (value == "true"@ || value == "1"@ || value
            == "yes"@),
        key == "announce_to_all_trackers"@ ==> after.config == (Config {
            announce_to_all_trackers: after.config.announce_to_all_trackers,
            ..before.config
        }) && after.config.announce_to_all_trackers == (value == "true"@ || value == "1"@ || value
            == "yes"@),
        key == "announce_to_all_tiers"@ ==> after.config == (Config {
            announce_to_all_tiers: after.config.announce_to_all_tiers,
            ..before.config
        }) && after.config.announce_to_all_tiers == (value == "true"@ || value == "1"@ || value
            == "yes"@),
        key == "proxy_peer_connections"@ ==> after.config == (Config {
            proxy_peer_connections: after.config.proxy_peer_connections,
            ..before.config
        }) && after.config.proxy_peer_connections == (value == "true"@ || value == "1"@ || value
            == "yes"@),
        key == "proxy_tracker_connections"@ ==> after.config == (Config {
            proxy_tracker_connections: after.config.proxy_tracker_connections,
            ..before.config
        }) && after.config.proxy_tracker_connections == (value == "true"@ || value == "1"@ || value
            == "yes"@),
        key == "auto_resume"@ ==> after.config == (Config {
            auto_resume: after.config.auto_resume,
            ..before.config
        }) && after.config.auto_resume == (value == "true"@ || value == "1"@ || value
            == "yes"@),
        key == "notifications_enabled"@ ==> after.config == (Config {
            notifications_enabled: after.config.notifications_enabled,
            ..before.config
        }) && after.config.notifications_enabled == (value == "true"@ || value == "1"@ || value
            == "yes"@),
{
    lemma_keys_differ();
}

/// A port is stored in the setting that its key names, and nothing else changes.
pub proof fn law_ports_go_to_their_settings(
    before: App,
    after: App,
    key: Seq<char>,
    value: Seq<char>,
    ratio: Result<Real64, Seq<char>>,
    out: Handling,
)
    requires
        config_changed(before, after, key, value, ratio, out),
        accepted(out),
    ensures
        key == "listen_port"@ ==> after.config == (Config {
            listen_port: after.config.listen_port,
            ..before.config
        }) && Some(after.config.listen_port as int) == written(value, false),
        key == "proxy_port"@ ==> after.config == (Config {
            proxy_port: after.config.proxy_port,
            ..before.config
        }) && Some(after.config.proxy_port as int) == written(value, false),
{
    lemma_keys_differ();
}

/// A number is stored in the setting that its key names, and nothing else changes.
pub proof fn law_numbers_go_to_their_settings(
    before: App,
    after: App,
    key: Seq<char>,
    value: Seq<char>,
    ratio: Result<Real64, Seq<char>>,
    out: Handling,
)
    requires
        config_changed(before, after, key, value, ratio, out),
        accepted(out),
    ensures
        key == "max_uploads"@ ==> after.config == (Config {
            max_uploads: after.config.max_uploads,
            ..before.config
        }) && Some(after.config.max_uploads as int) == written(value, true),
        key == "max_connections"@ ==> after.config == (Config {
            max_connections: after.config.max_connections,
            ..before.config
        }) && Some(after.config.max_connections as int) == written(value, true),
        key == "download_rate_limit"@ || key == "dl_limit"@ ==> after.config == (Config {
            download_rate_limit: after.config.download_rate_limit,
            ..before.config
        }) && Some(after.config.download_rate_limit as int) == written(value, true),
        key == "upload_rate_limit"@ || key == "ul_limit"@ ==> after.config == (Config {
            upload_rate_limit: after.config.upload_rate_limit,
            ..before.config
        }) && Some(after.config.upload_rate_limit as int) == written(value, true),
        key == "seed_time_limit"@ || key == "time_limit"@ ==> after.config == (Config {
            seed_time_limit: after.config.seed_time_limit,
            ..before.config
        }) && Some(after.config.seed_time_limit as int) == written(value, true),
        key == "max_active_downloads"@ || key == "active_downloads"@ ==> after.config == (Config {
            max_active_downloads: after.config.max_active_downloads,
            ..before.config
        }) && Some(after.config.max_active_downloads as int) == written(value, true),
        key == "max_active_uploads"@ || key == "active_uploads"@ ==> after.config == (Config {
            max_active_uploads: after.config.max_active_uploads,
            ..before.config
        }) && Some(after.config.max_active_uploads as int) == written(value, true),
        key == "max_active_torrents"@ || key == "active_limit"@ ==> after.config == (Config {
            max_active_torrents: after.config.max_active_torrents,
            ..before.config
        }) && Some(after.config.max_active_torrents as int) == written(value, true),
{
    lemma_keys_differ();
}

/// The watched folders are the lines of the value that hold more than white space, and the ratio
/// is the number that the value reads.
pub proof fn law_lists_and_ratios_are_stored(
    before: App,
    after: App,
    key: Seq<char>,
    value: Seq<char>,
    ratio: Result<Real64, Seq<char>>,
    out: Handling,
)
    requires
        config_changed(before, after, key, value, ratio, out),
        accepted(out),
    ensures
        key == "watch_directories"@ ==> after.config == (Config {
            watch_directories: after.config.watch_directories,
            ..before.config
        }) && texts(after.config.watch_directories@) == filled_lines(split(value, '\n')),
        key == "seed_ratio_limit"@ || key == "ratio_limit"@ ==> after.config == (Config {
            seed_ratio_limit: after.config.seed_ratio_limit,
            ..before.config
        }) && Ok::<Real64, Seq<char>>(after.config.seed_ratio_limit) == ratio,
{
    lemma_keys_differ();
}

/// A key that names a setting.
pub open spec fn names_a_setting(key: Seq<char>) -> bool {
    ||| key == "listen_address"@
    ||| key == "default_save_path"@
    ||| key == "proxy_host"@
    ||| key == "proxy_username"@
    ||| key == "proxy_password"@
    ||| key == "default_content_layout"@
    ||| key == "rename_merge_same"@
    ||| key == "rename_merge_unrelated"@
    ||| key == "rename_untracked_files"@
    ||| key == "encryption_mode"@
    ||| key == "seed_ratio_action"@
    ||| key == "proxy_type"@
    ||| key == "enable_dht"@
    ||| key == "dht"@
    ||| key == "enable_lsd"@
    ||| key == "lsd"@
    ||| key == "enable_upnp"@
    ||| key == "upnp"@
    ||| key == "enable_natpmp"@
    ||| key == "natpmp"@
    ||| key == "anonymous_mode"@
    ||| key == "ssrf_mitigation"@
    ||| key == "validate_https_tracker_certificate"@
    ||| key == "validate_https"@
    ||| key == "enable_incoming_utp"@
    ||| key == "incoming_utp"@
    ||| key == "enable_outgoing_utp"@
    ||| key == "outgoing_utp"@
    ||| key == "announce_to_all_trackers"@
    ||| key == "announce_to_all_tiers"@
    ||| key == "proxy_peer_connections"@
    ||| key == "proxy_tracker_connections"@
    ||| key == "auto_resume"@
    ||| key == "notifications_enabled"@
    ||| key == "listen_port"@
    ||| key == "proxy_port"@
    ||| key == "max_uploads"@
    ||| key == "max_connections"@
    ||| key == "download_rate_limit"@
    ||| key == "dl_limit"@
    ||| key == "upload_rate_limit"@
    ||| key == "ul_limit"@
    ||| key == "seed_time_limit"@
    ||| key == "time_limit"@
    ||| key == "max_active_downloads"@
    ||| key == "active_downloads"@
    ||| key == "max_active_uploads"@
    ||| key == "active_uploads"@
    ||| key == "max_active_torrents"@
    ||| key == "active_limit"@
    ||| key == "seed_ratio_limit"@
    ||| key == "ratio_limit"@
    ||| key == "watch_directories"@
}

/// Every change of a setting that is there is accepted, but for a word that it does not know and
/// for a number that cannot be read; any other key is refused. What is refused changes nothing.
pub proof fn law_changes_are_accepted(
    before: App,
    after: App,
    key: Seq<char>,
    value: Seq<char>,
    ratio: Result<Real64, Seq<char>>,
    out: Handling,
)
    requires
        config_changed(before, after, key, value, ratio, out),
    ensures
        !accepted(out) ==> after == before && (out matches Handling::Reply(a) && a.effects@.len()
            == 0 && a.save is None && a.response is Failed),
        !names_a_setting(key) ==> !accepted(out),
        key == "listen_address"@
            || key == "default_save_path"@
            || key == "proxy_host"@
            || key == "proxy_username"@
            || key == "proxy_password"@ ==> accepted(out),
        key == "enable_dht"@
            || key == "dht"@
            || key == "enable_lsd"@
            || key == "lsd"@
            || key == "enable_upnp"@
            || key == "upnp"@
            || key == "enable_natpmp"@
            || key == "natpmp"@
            || key == "anonymous_mode"@
            || key == "ssrf_mitigation"@
            || key == "validate_https_tracker_certificate"@
            || key == "validate_https"@
            || key == "enable_incoming_utp"@
            || key == "incoming_utp"@
            || key == "enable_outgoing_utp"@
            || key == "outgoing_utp"@
            || key == "announce_to_all_trackers"@
            || key == "announce_to_all_tiers"@
            || key == "proxy_peer_connections"@
            || key == "proxy_tracker_connections"@
            || key == "auto_resume"@
            || key == "notifications_enabled"@ ==> accepted(out),
        key == "listen_port"@ || key == "proxy_port"@ ==> (accepted(out) <==> (written(
            value,
            false,
        ) matches Some(n) && 0 <= n <= 65535)),
        key == "max_uploads"@
            || key == "max_connections"@
            || key == "download_rate_limit"@
            || key == "dl_limit"@
            || key == "upload_rate_limit"@
            || key == "ul_limit"@
            || key == "seed_time_limit"@
            || key == "time_limit"@
            || key == "max_active_downloads"@
            || key == "active_downloads"@
            || key == "max_active_uploads"@
            || key == "active_uploads"@
            || key == "max_active_torrents"@
            || key == "active_limit"@ ==> (accepted(out) <==> (written(value, true) matches Some(n)
            && -0x8000_0000 <= n <= 0x7fff_ffff)),
        key == "seed_ratio_limit"@ || key == "ratio_limit"@ ==> (accepted(out) <==> ratio is Ok),
        key == "watch_directories"@ ==> accepted(out),
        key == "default_content_layout"@ ==> (accepted(out) <==> value == "always"@ || value
            == "never"@ || value == "if_multiple"@),
        key == "rename_merge_same"@ || key == "rename_merge_unrelated"@ ==> (accepted(out)
            <==> value == "always"@ || value == "ask"@),
        key == "rename_untracked_files"@ ==> (accepted(out) <==> value == "always_move"@ || value
            == "always_leave"@ || value == "ask"@),
        key == "encryption_mode"@ ==> (accepted(out) <==> value == "enabled"@ || value
            == "forced"@ || value == "disabled"@),
        key == "seed_ratio_action"@ ==> (accepted(out) <==> value == "pause"@ || value
            == "remove"@),
        key == "proxy_type"@ ==> (accepted(out) <==> value == "none"@ || value == "socks4"@
            || value == "socks5"@ || value == "socks5_pw"@ || value == "http"@ || value
            == "http_pw"@ || value == "i2p"@),
{
    lemma_keys_differ();
}

/// A number is stored as it is written.
pub proof fn law_written_numbers_are_stored(
    before: App,
    after: App,
    key: Seq<char>,
    n: int,
    ratio: Result<Real64, Seq<char>>,
    out: Handling,
)
    requires
        config_changed(before, after, key, decimal(n), ratio, out),
    ensures
        key == "listen_port"@ && 0 <= n <= 65535 ==> after.config.listen_port == n,
        key == "proxy_port"@ && 0 <= n <= 65535 ==> after.config.proxy_port == n,
        key == "max_connections"@ && -0x8000_0000 <= n <= 0x7fff_ffff
            ==> after.config.max_connections == n,
        key == "seed_time_limit"@ && -0x8000_0000 <= n <= 0x7fff_ffff
            ==> after.config.seed_time_limit == n,
{
    lemma_keys_differ();
    law_decimals_are_read_back(n);
}

/// A change that is accepted is handed to the session at once, but for resuming by itself, which
/// matters only at the start. Where it takes effect only after a restart the answer says so.
pub proof fn law_accepted_changes_take_effect(
    before: App,
    after: App,
    key: Seq<char>,
    value: Seq<char>,
    ratio: Result<Real64, Seq<char>>,
    out: Handling,
)
    requires
        config_changed(before, after, key, value, ratio, out),
        accepted(out),
    ensures
        ({
            let later = key == "listen_address"@ || key == "listen_port"@ || key == "proxy_type"@
                || key == "proxy_host"@ || key == "proxy_port"@ || key == "proxy_username"@ || key
                == "proxy_password"@ || key == "proxy_peer_connections"@ || key
                == "proxy_tracker_connections"@;
            let a = out->Reply_0;
            &&& key == "auto_resume"@ ==> a.effects@.len() == 0 && a.response is Failed
            &&& key != "auto_resume"@ ==> a.effects@ == seq![Effect::ApplySettings]
            &&& later ==> a.response is Failed
            &&& !later && key != "auto_resume"@ ==> a.response == Response::Done
            &&& after == (App { config: after.config, ..before })
        }),
{
    lemma_keys_differ();
}

// ----- stored values -----

/// A text that is blank falls back to the default, and so does a number below what is allowed;
/// every other text and number is kept.
pub proof fn law_texts_and_numbers_are_healed(before: Config, after: Config, default: Config)
    requires
        healed(before, after, default),
    ensures
        trim(before.listen_address@).len() > 0 ==> after.listen_address == before.listen_address,
        !(trim(before.listen_address@).len() > 0) ==> after.listen_address == default.listen_address,
        trim(before.default_save_path@).len() > 0 ==> after.default_save_path == before.default_save_path,
        !(trim(before.default_save_path@).len() > 0) ==> after.default_save_path == default.default_save_path,
        before.max_uploads >= -1 ==> after.max_uploads == before.max_uploads,
        !(before.max_uploads >= -1) ==> after.max_uploads == default.max_uploads,
        before.max_connections >= -1 ==> after.max_connections == before.max_connections,
        !(before.max_connections >= -1) ==> after.max_connections == default.max_connections,
        before.max_active_downloads >= -1 ==> after.max_active_downloads == before.max_active_downloads,
        !(before.max_active_downloads >= -1) ==> after.max_active_downloads == default.max_active_downloads,
        before.max_active_uploads >= -1 ==> after.max_active_uploads == before.max_active_uploads,
        !(before.max_active_uploads >= -1) ==> after.max_active_uploads == default.max_active_uploads,
        before.max_active_torrents >= -1 ==> after.max_active_torrents == before.max_active_torrents,
        !(before.max_active_torrents >= -1) ==> after.max_active_torrents == default.max_active_torrents,
        before.download_rate_limit >= 0 ==> after.download_rate_limit == before.download_rate_limit,
        !(before.download_rate_limit >= 0) ==> after.download_rate_limit == default.download_rate_limit,
        before.upload_rate_limit >= 0 ==> after.upload_rate_limit == before.upload_rate_limit,
        !(before.upload_rate_limit >= 0) ==> after.upload_rate_limit == default.upload_rate_limit,
        before.seed_time_limit >= 0 ==> after.seed_time_limit == before.seed_time_limit,
        !(before.seed_time_limit >= 0) ==> after.seed_time_limit == default.seed_time_limit,
        before.tui_sidebar_width >= 8 ==> after.tui_sidebar_width == before.tui_sidebar_width,
        !(before.tui_sidebar_width >= 8) ==> after.tui_sidebar_width == default.tui_sidebar_width,
        10 <= before.tui_detail_split_percent <= 90 ==> after.tui_detail_split_percent == before.tui_detail_split_percent,
        !(10 <= before.tui_detail_split_percent <= 90) ==> after.tui_detail_split_percent == default.tui_detail_split_percent,
{
}

/// A word that a setting does not know falls back to the default; every other is kept.
pub proof fn law_words_are_healed(before: Config, after: Config, default: Config)
    requires
        healed(before, after, default),
    ensures
        before.default_content_layout@ == "always"@ || before.default_content_layout@ == "never"@ || before.default_content_layout@ == "if_multiple"@ ==> after.default_content_layout == before.default_content_layout,
        !(before.default_content_layout@ == "always"@ || before.default_content_layout@ == "never"@ || before.default_content_layout@ == "if_multiple"@) ==> after.default_content_layout == default.default_content_layout,
        before.rename_merge_same@ == "always"@ || before.rename_merge_same@ == "ask"@ ==> after.rename_merge_same == before.rename_merge_same,
        !(before.rename_merge_same@ == "always"@ || before.rename_merge_same@ == "ask"@) ==> after.rename_merge_same == default.rename_merge_same,
        before.rename_merge_unrelated@ == "always"@ || before.rename_merge_unrelated@ == "ask"@ ==> after.rename_merge_unrelated == before.rename_merge_unrelated,
        !(before.rename_merge_unrelated@ == "always"@ || before.rename_merge_unrelated@ == "ask"@) ==> after.rename_merge_unrelated == default.rename_merge_unrelated,
        before.rename_untracked_files@ == "always_move"@ || before.rename_untracked_files@ == "always_leave"@ || before.rename_untracked_files@ == "ask"@ ==> after.rename_untracked_files == before.rename_untracked_files,
        !(before.rename_untracked_files@ == "always_move"@ || before.rename_untracked_files@ == "always_leave"@ || before.rename_untracked_files@ == "ask"@) ==> after.rename_untracked_files == default.rename_untracked_files,
        before.add_result_review@ == "always"@ || before.add_result_review@ == "never"@ ==> after.add_result_review == before.add_result_review,
        !(before.add_result_review@ == "always"@ || before.add_result_review@ == "never"@) ==> after.add_result_review == default.add_result_review,
        before.encryption_mode@ == "enabled"@ || before.encryption_mode@ == "forced"@ || before.encryption_mode@ == "disabled"@ ==> after.encryption_mode == before.encryption_mode,
        !(before.encryption_mode@ == "enabled"@ || before.encryption_mode@ == "forced"@ || before.encryption_mode@ == "disabled"@) ==> after.encryption_mode == default.encryption_mode,
        before.seed_ratio_action@ == "pause"@ || before.seed_ratio_action@ == "remove"@ ==> after.seed_ratio_action == before.seed_ratio_action,
        !(before.seed_ratio_action@ == "pause"@ || before.seed_ratio_action@ == "remove"@) ==> after.seed_ratio_action == default.seed_ratio_action,
        before.proxy_type@ == "none"@ || before.proxy_type@ == "socks4"@ || before.proxy_type@ == "socks5"@ || before.proxy_type@ == "socks5_pw"@ || before.proxy_type@ == "http"@ || before.proxy_type@ == "http_pw"@ || before.proxy_type@ == "i2p"@ ==> after.proxy_type == before.proxy_type,
        !(before.proxy_type@ == "none"@ || before.proxy_type@ == "socks4"@ || before.proxy_type@ == "socks5"@ || before.proxy_type@ == "socks5_pw"@ || before.proxy_type@ == "http"@ || before.proxy_type@ == "http_pw"@ || before.proxy_type@ == "i2p"@) ==> after.proxy_type == default.proxy_type,
{
}

/// Of the recent paths only as many are kept as the limit allows, the latest ones; what has no
/// range of its own is kept as it is.
pub proof fn law_other_settings_are_not_healed(before: Config, after: Config, default: Config)
    requires
        healed(before, after, default),
    ensures
        after.recent_save_paths@.len() <= after.recent_paths_limit,
        forall|i: int|
            0 <= i < after.recent_save_paths@.len() ==> #[trigger] after.recent_save_paths@[i]
                == before.recent_save_paths@[i],
        before.recent_save_paths@.len() <= before.recent_paths_limit
            ==> after.recent_save_paths@ == before.recent_save_paths@,
        after.recent_paths_limit == before.recent_paths_limit,
        after.listen_port == before.listen_port,
        after.listen_interfaces == before.listen_interfaces,
        after.enable_dht == before.enable_dht,
        after.auto_resume == before.auto_resume,
        after.completion_script == before.completion_script,
        after.watch_directories == before.watch_directories,
{
}

// ----- recent paths -----

/// A path that was used is the latest of the recent ones; the others follow in their order, as
/// far as there is room, and none is lost where there is.
pub proof fn law_used_path_comes_first(
    list: Seq<Seq<char>>,
    path: Seq<char>,
    limit: int,
    other: Seq<char>,
)
    requires
        normal_path(path).len() > 0,
        limit > list.len(),
        other != normal_path(path),
    ensures
        recorded(list, path, limit)[0] == normal_path(path),
        recorded(list, path, limit).contains(other) <==> list.contains(other),
{
    let n = normal_path(path);
    lemma_without_keeps(list, n, other);
    let rest = without(list, n);
    let all = recorded(list, path, limit);
    assert(all =~= seq![n] + rest);
    if rest.contains(other) {
        assert(all[rest.index_of(other) + 1] == other);
    }
    if all.contains(other) {
        let k = all.index_of(other);
        assert(rest[k - 1] == other);
    }
}

/// What is not taken out stays.
proof fn lemma_without_keeps(list: Seq<Seq<char>>, x: Seq<char>, other: Seq<char>)
    requires
        other != x,
    ensures
        without(list, x).contains(other) <==> list.contains(other),
        without(list, x).len() <= list.len(),
    decreases list.len(),
{
    if list.len() > 0 {
        let init = list.drop_last();
        let before = without(init, x);
        let all = without(list, x);
        lemma_without_keeps(init, x, other);
        if list.contains(other) {
            let k = list.index_of(other);
            if k < init.len() {
                assert(init[k] == other);
            }
        }
        if init.contains(other) {
            assert(list[init.index_of(other)] == other);
        }
        if list.last() != x {
            assert(all[before.len() as int] == list.last());
            if before.contains(other) {
                assert(all[before.index_of(other)] == other);
            }
            if all.contains(other) {
                let k = all.index_of(other);
                if k < before.len() {
                    assert(before[k] == other);
                }
            }
            assert(list[list.len() - 1] == list.last());
        }
    }
}

/// A slash behind a path makes no other path of it, but for the root.
pub proof fn law_paths_are_noted_without_slashes_behind(path: Seq<char>)
    requires
        trim(path) != "/"@,
    ensures
        normal_path(path).len() > 0 ==> normal_path(path).last() != '/',
        normal_path("/"@) == "/"@,
{
    law_trimming_a_character(trim(path), '/');
    reveal_strlit("/");
    assert(crate::text::trim_front("/"@) == "/"@);
    assert(crate::text::trim_back("/"@) == "/"@);
}

} // verus!
