//! Setting one value of the configuration by its key.

use crate::binary64::Real64;
use crate::config::{
    encryption_mode_word, is_encryption_mode_word, is_layout_word, is_merge_word,
    is_proxy_type_word, is_seed_action_word, is_untracked_word, layout_word, merge_word,
    proxy_type_word, seed_action_word, untracked_word, Config,
};
use crate::integers::{i32_failure, parse_i32, parse_u16, u16_failure, written_within};
use crate::text::{collected_lines, filled_lines, same, split, split_on, texts};
use vstd::prelude::*;

verus! {

/// Settings that take any text.
#[derive(Debug, Clone, Copy, PartialEq, Eq, Structural)]
pub enum TextKey {
    ListenAddress,
    DefaultSavePath,
    ProxyHost,
    ProxyUsername,
    ProxyPassword,
}

/// Settings that take one of a few words.
#[derive(Debug, Clone, Copy, PartialEq, Eq, Structural)]
pub enum ChoiceKey {
    DefaultContentLayout,
    RenameMergeSame,
    RenameMergeUnrelated,
    RenameUntrackedFiles,
    EncryptionMode,
    SeedRatioAction,
    ProxyType,
}

/// Settings that are on or off.
#[derive(Debug, Clone, Copy, PartialEq, Eq, Structural)]
pub enum FlagKey {
    EnableDht,
    EnableLsd,
    EnableUpnp,
    EnableNatpmp,
    AnonymousMode,
    SsrfMitigation,
    ValidateHttpsTrackerCertificate,
    EnableIncomingUtp,
    EnableOutgoingUtp,
    AnnounceToAllTrackers,
    AnnounceToAllTiers,
    ProxyPeerConnections,
    ProxyTrackerConnections,
    AutoResume,
    NotificationsEnabled,
}

/// Settings that take a port.
#[derive(Debug, Clone, Copy, PartialEq, Eq, Structural)]
pub enum PortKey {
    ListenPort,
    ProxyPort,
}

/// Settings that take an integer.
#[derive(Debug, Clone, Copy, PartialEq, Eq, Structural)]
pub enum NumberKey {
    MaxUploads,
    MaxConnections,
    DownloadRateLimit,
    UploadRateLimit,
    SeedTimeLimit,
    MaxActiveDownloads,
    MaxActiveUploads,
    MaxActiveTorrents,
}

/// A setting that can be changed while the daemon runs.
#[derive(Debug, Clone, Copy, PartialEq, Eq, Structural)]
pub enum Setting {
    Text(TextKey),
    Choice(ChoiceKey),
    Flag(FlagKey),
    Port(PortKey),
    Number(NumberKey),
    SeedRatioLimit,
    WatchDirectories,
}

/// The text setting that a key names.
pub open spec fn text_key(key: Seq<char>) -> Option<TextKey> {
    if key == "listen_address"@ {
        Some(TextKey::ListenAddress)
    } else if key == "default_save_path"@ {
        Some(TextKey::DefaultSavePath)
    } else if key == "proxy_host"@ {
        Some(TextKey::ProxyHost)
    } else if key == "proxy_username"@ {
        Some(TextKey::ProxyUsername)
    } else if key == "proxy_password"@ {
        Some(TextKey::ProxyPassword)
    } else {
        None
    }
}

/// The text setting that a key names.
fn find_text_key(key: &str) -> (r: Option<TextKey>)
    ensures
        r == text_key(key@),
{
    if same(key, "listen_address") {
        Some(TextKey::ListenAddress)
    } else if same(key, "default_save_path") {
        Some(TextKey::DefaultSavePath)
    } else if same(key, "proxy_host") {
        Some(TextKey::ProxyHost)
    } else if same(key, "proxy_username") {
        Some(TextKey::ProxyUsername)
    } else if same(key, "proxy_password") {
        Some(TextKey::ProxyPassword)
    } else {
        None
    }
}

/// The choice setting that a key names.
pub open spec fn choice_key(key: Seq<char>) -> Option<ChoiceKey> {
    if key == "default_content_layout"@ {
        Some(ChoiceKey::DefaultContentLayout)
    } else if key == "rename_merge_same"@ {
        Some(ChoiceKey::RenameMergeSame)
    } else if key == "rename_merge_unrelated"@ {
        Some(ChoiceKey::RenameMergeUnrelated)
    } else if key == "rename_untracked_files"@ {
        Some(ChoiceKey::RenameUntrackedFiles)
    } else if key == "encryption_mode"@ {
        Some(ChoiceKey::EncryptionMode)
    } else if key == "seed_ratio_action"@ {
        Some(ChoiceKey::SeedRatioAction)
    } else if key == "proxy_type"@ {
        Some(ChoiceKey::ProxyType)
    } else {
        None
    }
}

/// The choice setting that a key names.
fn find_choice_key(key: &str) -> (r: Option<ChoiceKey>)
    ensures
        r == choice_key(key@),
{
    if same(key, "default_content_layout") {
        Some(ChoiceKey::DefaultContentLayout)
    } else if same(key, "rename_merge_same") {
        Some(ChoiceKey::RenameMergeSame)
    } else if same(key, "rename_merge_unrelated") {
        Some(ChoiceKey::RenameMergeUnrelated)
    } else if same(key, "rename_untracked_files") {
        Some(ChoiceKey::RenameUntrackedFiles)
    } else if same(key, "encryption_mode") {
        Some(ChoiceKey::EncryptionMode)
    } else if same(key, "seed_ratio_action") {
        Some(ChoiceKey::SeedRatioAction)
    } else if same(key, "proxy_type") {
        Some(ChoiceKey::ProxyType)
    } else {
        None
    }
}

/// The flag setting that a key names.
pub open spec fn flag_key(key: Seq<char>) -> Option<FlagKey> {
    if key == "enable_dht"@ || key == "dht"@ {
        Some(FlagKey::EnableDht)
    } else if key == "enable_lsd"@ || key == "lsd"@ {
        Some(FlagKey::EnableLsd)
    } else if key == "enable_upnp"@ || key == "upnp"@ {
        Some(FlagKey::EnableUpnp)
    } else if key == "enable_natpmp"@ || key == "natpmp"@ {
        Some(FlagKey::EnableNatpmp)
    } else if key == "anonymous_mode"@ {
        Some(FlagKey::AnonymousMode)
    } else if key == "ssrf_mitigation"@ {
        Some(FlagKey::SsrfMitigation)
    } else if key == "validate_https_tracker_certificate"@ || key == "validate_https"@ {
        Some(FlagKey::ValidateHttpsTrackerCertificate)
    } else if key == "enable_incoming_utp"@ || key == "incoming_utp"@ {
        Some(FlagKey::EnableIncomingUtp)
    } else if key == "enable_outgoing_utp"@ || key == "outgoing_utp"@ {
        Some(FlagKey::EnableOutgoingUtp)
    } else if key == "announce_to_all_trackers"@ {
        Some(FlagKey::AnnounceToAllTrackers)
    } else if key == "announce_to_all_tiers"@ {
        Some(FlagKey::AnnounceToAllTiers)
    } else if key == "proxy_peer_connections"@ {
        Some(FlagKey::ProxyPeerConnections)
    } else if key == "proxy_tracker_connections"@ {
        Some(FlagKey::ProxyTrackerConnections)
    } else if key == "auto_resume"@ {
        Some(FlagKey::AutoResume)
    } else if key == "notifications_enabled"@ {
        Some(FlagKey::NotificationsEnabled)
    } else {
        None
    }
}

/// The flag setting that a key names.
fn find_flag_key(key: &str) -> (r: Option<FlagKey>)
    ensures
        r == flag_key(key@),
{
    if same(key, "enable_dht") || same(key, "dht") {
        Some(FlagKey::EnableDht)
    } else if same(key, "enable_lsd") || same(key, "lsd") {
        Some(FlagKey::EnableLsd)
    } else if same(key, "enable_upnp") || same(key, "upnp") {
        Some(FlagKey::EnableUpnp)
    } else if same(key, "enable_natpmp") || same(key, "natpmp") {
        Some(FlagKey::EnableNatpmp)
    } else if same(key, "anonymous_mode") {
        Some(FlagKey::AnonymousMode)
    } else if same(key, "ssrf_mitigation") {
        Some(FlagKey::SsrfMitigation)
    } else if same(key, "validate_https_tracker_certificate") || same(key, "validate_https") {
        Some(FlagKey::ValidateHttpsTrackerCertificate)
    } else if same(key, "enable_incoming_utp") || same(key, "incoming_utp") {
        Some(FlagKey::EnableIncomingUtp)
    } else if same(key, "enable_outgoing_utp") || same(key, "outgoing_utp") {
        Some(FlagKey::EnableOutgoingUtp)
    } else if same(key, "announce_to_all_trackers") {
        Some(FlagKey::AnnounceToAllTrackers)
    } else if same(key, "announce_to_all_tiers") {
        Some(FlagKey::AnnounceToAllTiers)
    } else if same(key, "proxy_peer_connections") {
        Some(FlagKey::ProxyPeerConnections)
    } else if same(key, "proxy_tracker_connections") {
        Some(FlagKey::ProxyTrackerConnections)
    } else if same(key, "auto_resume") {
        Some(FlagKey::AutoResume)
    } else if same(key, "notifications_enabled") {
        Some(FlagKey::NotificationsEnabled)
    } else {
        None
    }
}

/// The port setting that a key names.
pub open spec fn port_key(key: Seq<char>) -> Option<PortKey> {
    if key == "listen_port"@ {
        Some(PortKey::ListenPort)
    } else if key == "proxy_port"@ {
        Some(PortKey::ProxyPort)
    } else {
        None
    }
}

/// The port setting that a key names.
fn find_port_key(key: &str) -> (r: Option<PortKey>)
    ensures
        r == port_key(key@),
{
    if same(key, "listen_port") {
        Some(PortKey::ListenPort)
    } else if same(key, "proxy_port") {
        Some(PortKey::ProxyPort)
    } else {
        None
    }
}

/// The number setting that a key names.
pub open spec fn number_key(key: Seq<char>) -> Option<NumberKey> {
    if key == "max_uploads"@ {
        Some(NumberKey::MaxUploads)
    } else if key == "max_connections"@ {
        Some(NumberKey::MaxConnections)
    } else if key == "download_rate_limit"@ || key == "dl_limit"@ {
        Some(NumberKey::DownloadRateLimit)
    } else if key == "upload_rate_limit"@ || key == "ul_limit"@ {
        Some(NumberKey::UploadRateLimit)
    } else if key == "seed_time_limit"@ || key == "time_limit"@ {
        Some(NumberKey::SeedTimeLimit)
    } else if key == "max_active_downloads"@ || key == "active_downloads"@ {
        Some(NumberKey::MaxActiveDownloads)
    } else if key == "max_active_uploads"@ || key == "active_uploads"@ {
        Some(NumberKey::MaxActiveUploads)
    } else if key == "max_active_torrents"@ || key == "active_limit"@ {
        Some(NumberKey::MaxActiveTorrents)
    } else {
        None
    }
}

/// The number setting that a key names.
fn find_number_key(key: &str) -> (r: Option<NumberKey>)
    ensures
        r == number_key(key@),
{
    if same(key, "max_uploads") {
        Some(NumberKey::MaxUploads)
    } else if same(key, "max_connections") {
        Some(NumberKey::MaxConnections)
    } else if same(key, "download_rate_limit") || same(key, "dl_limit") {
        Some(NumberKey::DownloadRateLimit)
    } else if same(key, "upload_rate_limit") || same(key, "ul_limit") {
        Some(NumberKey::UploadRateLimit)
    } else if same(key, "seed_time_limit") || same(key, "time_limit") {
        Some(NumberKey::SeedTimeLimit)
    } else if same(key, "max_active_downloads") || same(key, "active_downloads") {
        Some(NumberKey::MaxActiveDownloads)
    } else if same(key, "max_active_uploads") || same(key, "active_uploads") {
        Some(NumberKey::MaxActiveUploads)
    } else if same(key, "max_active_torrents") || same(key, "active_limit") {
        Some(NumberKey::MaxActiveTorrents)
    } else {
        None
    }
}

/// The setting that a key names, by its full name or a short one.
pub open spec fn setting_of(key: Seq<char>) -> Option<Setting> {
    if let Some(k) = text_key(key) {
        Some(Setting::Text(k))
    } else if let Some(k) = choice_key(key) {
        Some(Setting::Choice(k))
    } else if let Some(k) = flag_key(key) {
        Some(Setting::Flag(k))
    } else if let Some(k) = port_key(key) {
        Some(Setting::Port(k))
    } else if let Some(k) = number_key(key) {
        Some(Setting::Number(k))
    } else if key == "seed_ratio_limit"@ || key == "ratio_limit"@ {
        Some(Setting::SeedRatioLimit)
    } else if key == "watch_directories"@ {
        Some(Setting::WatchDirectories)
    } else {
        None
    }
}

/// The setting that a key names.
pub fn find_setting(key: &str) -> (r: Option<Setting>)
    ensures
        r == setting_of(key@),
{
    if let Some(k) = find_text_key(key) {
        return Some(Setting::Text(k));
    }
    if let Some(k) = find_choice_key(key) {
        return Some(Setting::Choice(k));
    }
    if let Some(k) = find_flag_key(key) {
        return Some(Setting::Flag(k));
    }
    if let Some(k) = find_port_key(key) {
        return Some(Setting::Port(k));
    }
    if let Some(k) = find_number_key(key) {
        return Some(Setting::Number(k));
    }
    if same(key, "seed_ratio_limit") || same(key, "ratio_limit") {
        Some(Setting::SeedRatioLimit)
    } else if same(key, "watch_directories") {
        Some(Setting::WatchDirectories)
    } else {
        None
    }
}

/// Settings that take effect when the daemon starts again.
pub open spec fn needs_restart(key: Seq<char>) -> bool {
    ||| key == "listen_address"@
    ||| key == "listen_port"@
    ||| key == "proxy_type"@
    ||| key == "proxy_host"@
    ||| key == "proxy_port"@
    ||| key == "proxy_username"@
    ||| key == "proxy_password"@
    ||| key == "proxy_peer_connections"@
    ||| key == "proxy_tracker_connections"@
}

/// Whether the setting takes effect only when the daemon starts again.
pub fn is_restart_key(key: &str) -> (r: bool)
    ensures
        r == needs_restart(key@),
{
    same(key, "listen_address")
        || same(key, "listen_port")
        || same(key, "proxy_type")
        || same(key, "proxy_host")
        || same(key, "proxy_port")
        || same(key, "proxy_username")
        || same(key, "proxy_password")
        || same(key, "proxy_peer_connections")
        || same(key, "proxy_tracker_connections")
}

/// A word that turns a setting on; any other turns it off.
pub open spec fn affirms(value: Seq<char>) -> bool {
    value == "true"@ || value == "1"@ || value == "yes"@
}

/// Whether the word turns a setting on.
pub fn parse_bool(value: &str) -> (r: bool)
    ensures
        r == affirms(value@),
{
    same(value, "true") || same(value, "1") || same(value, "yes")
}

/// The configuration with a text set.
pub open spec fn with_text(c: Config, key: TextKey, value: String) -> Config {
    match key {
        TextKey::ListenAddress => Config { listen_address: value, ..c },
        TextKey::DefaultSavePath => Config { default_save_path: value, ..c },
        TextKey::ProxyHost => Config { proxy_host: value, ..c },
        TextKey::ProxyUsername => Config { proxy_username: value, ..c },
        TextKey::ProxyPassword => Config { proxy_password: value, ..c },
    }
}

/// The configuration with a text set.
fn put_text(c: Config, key: TextKey, value: String) -> (r: Config)
    ensures
        r == with_text(c, key, value),
{
    match key {
        TextKey::ListenAddress => Config { listen_address: value, ..c },
        TextKey::DefaultSavePath => Config { default_save_path: value, ..c },
        TextKey::ProxyHost => Config { proxy_host: value, ..c },
        TextKey::ProxyUsername => Config { proxy_username: value, ..c },
        TextKey::ProxyPassword => Config { proxy_password: value, ..c },
    }
}

/// The configuration with a word set.
pub open spec fn with_choice(c: Config, key: ChoiceKey, value: String) -> Config {
    match key {
        ChoiceKey::DefaultContentLayout => Config { default_content_layout: value, ..c },
        ChoiceKey::RenameMergeSame => Config { rename_merge_same: value, ..c },
        ChoiceKey::RenameMergeUnrelated => Config { rename_merge_unrelated: value, ..c },
        ChoiceKey::RenameUntrackedFiles => Config { rename_untracked_files: value, ..c },
        ChoiceKey::EncryptionMode => Config { encryption_mode: value, ..c },
        ChoiceKey::SeedRatioAction => Config { seed_ratio_action: value, ..c },
        ChoiceKey::ProxyType => Config { proxy_type: value, ..c },
    }
}

/// The configuration with a word set.
fn put_choice(c: Config, key: ChoiceKey, value: String) -> (r: Config)
    ensures
        r == with_choice(c, key, value),
{
    match key {
        ChoiceKey::DefaultContentLayout => Config { default_content_layout: value, ..c },
        ChoiceKey::RenameMergeSame => Config { rename_merge_same: value, ..c },
        ChoiceKey::RenameMergeUnrelated => Config { rename_merge_unrelated: value, ..c },
        ChoiceKey::RenameUntrackedFiles => Config { rename_untracked_files: value, ..c },
        ChoiceKey::EncryptionMode => Config { encryption_mode: value, ..c },
        ChoiceKey::SeedRatioAction => Config { seed_ratio_action: value, ..c },
        ChoiceKey::ProxyType => Config { proxy_type: value, ..c },
    }
}

/// The configuration with a flag set.
pub open spec fn with_flag(c: Config, key: FlagKey, value: bool) -> Config {
    match key {
        FlagKey::EnableDht => Config { enable_dht: value, ..c },
        FlagKey::EnableLsd => Config { enable_lsd: value, ..c },
        FlagKey::EnableUpnp => Config { enable_upnp: value, ..c },
        FlagKey::EnableNatpmp => Config { enable_natpmp: value, ..c },
        FlagKey::AnonymousMode => Config { anonymous_mode: value, ..c },
        FlagKey::SsrfMitigation => Config { ssrf_mitigation: value, ..c },
        FlagKey::ValidateHttpsTrackerCertificate => Config { validate_https_tracker_certificate: value, ..c },
        FlagKey::EnableIncomingUtp => Config { enable_incoming_utp: value, ..c },
        FlagKey::EnableOutgoingUtp => Config { enable_outgoing_utp: value, ..c },
        FlagKey::AnnounceToAllTrackers => Config { announce_to_all_trackers: value, ..c },
        FlagKey::AnnounceToAllTiers => Config { announce_to_all_tiers: value, ..c },
        FlagKey::ProxyPeerConnections => Config { proxy_peer_connections: value, ..c },
        FlagKey::ProxyTrackerConnections => Config { proxy_tracker_connections: value, ..c },
        FlagKey::AutoResume => Config { auto_resume: value, ..c },
        FlagKey::NotificationsEnabled => Config { notifications_enabled: value, ..c },
    }
}

/// The configuration with a flag set.
fn put_flag(c: Config, key: FlagKey, value: bool) -> (r: Config)
    ensures
        r == with_flag(c, key, value),
{
    match key {
        FlagKey::EnableDht => Config { enable_dht: value, ..c },
        FlagKey::EnableLsd => Config { enable_lsd: value, ..c },
        FlagKey::EnableUpnp => Config { enable_upnp: value, ..c },
        FlagKey::EnableNatpmp => Config { enable_natpmp: value, ..c },
        FlagKey::AnonymousMode => Config { anonymous_mode: value, ..c },
        FlagKey::SsrfMitigation => Config { ssrf_mitigation: value, ..c },
        FlagKey::ValidateHttpsTrackerCertificate => Config { validate_https_tracker_certificate: value, ..c },
        FlagKey::EnableIncomingUtp => Config { enable_incoming_utp: value, ..c },
        FlagKey::EnableOutgoingUtp => Config { enable_outgoing_utp: value, ..c },
        FlagKey::AnnounceToAllTrackers => Config { announce_to_all_trackers: value, ..c },
        FlagKey::AnnounceToAllTiers => Config { announce_to_all_tiers: value, ..c },
        FlagKey::ProxyPeerConnections => Config { proxy_peer_connections: value, ..c },
        FlagKey::ProxyTrackerConnections => Config { proxy_tracker_connections: value, ..c },
        FlagKey::AutoResume => Config { auto_resume: value, ..c },
        FlagKey::NotificationsEnabled => Config { notifications_enabled: value, ..c },
    }
}

/// The configuration with a port set.
pub open spec fn with_port(c: Config, key: PortKey, value: u16) -> Config {
    match key {
        PortKey::ListenPort => Config { listen_port: value, ..c },
        PortKey::ProxyPort => Config { proxy_port: value, ..c },
    }
}

/// The configuration with a port set.
fn put_port(c: Config, key: PortKey, value: u16) -> (r: Config)
    ensures
        r == with_port(c, key, value),
{
    match key {
        PortKey::ListenPort => Config { listen_port: value, ..c },
        PortKey::ProxyPort => Config { proxy_port: value, ..c },
    }
}

/// The configuration with a number set.
pub open spec fn with_number(c: Config, key: NumberKey, value: i32) -> Config {
    match key {
        NumberKey::MaxUploads => Config { max_uploads: value, ..c },
        NumberKey::MaxConnections => Config { max_connections: value, ..c },
        NumberKey::DownloadRateLimit => Config { download_rate_limit: value, ..c },
        NumberKey::UploadRateLimit => Config { upload_rate_limit: value, ..c },
        NumberKey::SeedTimeLimit => Config { seed_time_limit: value, ..c },
        NumberKey::MaxActiveDownloads => Config { max_active_downloads: value, ..c },
        NumberKey::MaxActiveUploads => Config { max_active_uploads: value, ..c },
        NumberKey::MaxActiveTorrents => Config { max_active_torrents: value, ..c },
    }
}

/// The configuration with a number set.
fn put_number(c: Config, key: NumberKey, value: i32) -> (r: Config)
    ensures
        r == with_number(c, key, value),
{
    match key {
        NumberKey::MaxUploads => Config { max_uploads: value, ..c },
        NumberKey::MaxConnections => Config { max_connections: value, ..c },
        NumberKey::DownloadRateLimit => Config { download_rate_limit: value, ..c },
        NumberKey::UploadRateLimit => Config { upload_rate_limit: value, ..c },
        NumberKey::SeedTimeLimit => Config { seed_time_limit: value, ..c },
        NumberKey::MaxActiveDownloads => Config { max_active_downloads: value, ..c },
        NumberKey::MaxActiveUploads => Config { max_active_uploads: value, ..c },
        NumberKey::MaxActiveTorrents => Config { max_active_torrents: value, ..c },
    }
}

/// The word is one that the setting takes.
pub open spec fn choice_takes(key: ChoiceKey, word: Seq<char>) -> bool {
    match key {
        ChoiceKey::DefaultContentLayout => layout_word(word),
        ChoiceKey::RenameMergeSame => merge_word(word),
        ChoiceKey::RenameMergeUnrelated => merge_word(word),
        ChoiceKey::RenameUntrackedFiles => untracked_word(word),
        ChoiceKey::EncryptionMode => encryption_mode_word(word),
        ChoiceKey::SeedRatioAction => seed_action_word(word),
        ChoiceKey::ProxyType => proxy_type_word(word),
    }
}

/// Whether the word is one that the setting takes.
fn takes(key: ChoiceKey, word: &str) -> (r: bool)
    ensures
        r == choice_takes(key, word@),
{
    match key {
        ChoiceKey::DefaultContentLayout => is_layout_word(word),
        ChoiceKey::RenameMergeSame => is_merge_word(word),
        ChoiceKey::RenameMergeUnrelated => is_merge_word(word),
        ChoiceKey::RenameUntrackedFiles => is_untracked_word(word),
        ChoiceKey::EncryptionMode => is_encryption_mode_word(word),
        ChoiceKey::SeedRatioAction => is_seed_action_word(word),
        ChoiceKey::ProxyType => is_proxy_type_word(word),
    }
}

/// The words that the setting takes, as told to one who gave another.
pub open spec fn choice_hint(key: ChoiceKey) -> Seq<char> {
    match key {
        ChoiceKey::DefaultContentLayout => "default_content_layout must be: always | never | if_multiple"@,
        ChoiceKey::RenameMergeSame => "rename_merge_same must be: always | ask"@,
        ChoiceKey::RenameMergeUnrelated => "rename_merge_unrelated must be: always | ask"@,
        ChoiceKey::RenameUntrackedFiles => "rename_untracked_files must be: always_move | always_leave | ask"@,
        ChoiceKey::EncryptionMode => "encryption_mode must be: enabled | forced | disabled"@,
        ChoiceKey::SeedRatioAction => "seed_ratio_action must be: pause | remove"@,
        ChoiceKey::ProxyType => "proxy_type must be: none | socks4 | socks5 | socks5_pw | http | http_pw | i2p"@,
    }
}

/// The words that the setting takes.
fn hint(key: ChoiceKey) -> (r: &'static str)
    ensures
        r@ == choice_hint(key),
{
    match key {
        ChoiceKey::DefaultContentLayout => "default_content_layout must be: always | never | if_multiple",
        ChoiceKey::RenameMergeSame => "rename_merge_same must be: always | ask",
        ChoiceKey::RenameMergeUnrelated => "rename_merge_unrelated must be: always | ask",
        ChoiceKey::RenameUntrackedFiles => "rename_untracked_files must be: always_move | always_leave | ask",
        ChoiceKey::EncryptionMode => "encryption_mode must be: enabled | forced | disabled",
        ChoiceKey::SeedRatioAction => "seed_ratio_action must be: pause | remove",
        ChoiceKey::ProxyType => "proxy_type must be: none | socks4 | socks5 | socks5_pw | http | http_pw | i2p",
    }
}

/// The lines of a text that hold more than white space.
pub fn text_lines(value: &str) -> (r: Vec<String>)
    ensures
        texts(r@) == filled_lines(split(value@, '\n')),
{
    let lines = split_on(value, '\n');
    collected_lines(&lines)
}

/// The number that a value writes, or the reason it writes none.
pub open spec fn number_of(value: Seq<char>) -> Result<i32, Seq<char>> {
    match written_within(value, true, i32::MIN as int, i32::MAX as int) {
        Some(n) => Ok(n as i32),
        None => Err(i32_failure(value)),
    }
}

/// The port that a value writes, or the reason it writes none.
pub open spec fn port_of(value: Seq<char>) -> Result<u16, Seq<char>> {
    match written_within(value, false, 0, u16::MAX as int) {
        Some(n) => Ok(n as u16),
        None => Err(u16_failure(value)),
    }
}

/// Why a value cannot be set, where it cannot. `ratio` is what the value reads as a real
/// number.
pub open spec fn set_refusal(
    setting: Setting,
    value: Seq<char>,
    ratio: Result<Real64, Seq<char>>,
) -> Option<Seq<char>> {
    match setting {
        Setting::Choice(key) => if choice_takes(key, value) {
            None
        } else {
            Some(choice_hint(key))
        },
        Setting::Port(_) => match port_of(value) {
            Ok(_) => None,
            Err(reason) => Some(reason),
        },
        Setting::Number(_) => match number_of(value) {
            Ok(_) => None,
            Err(reason) => Some(reason),
        },
        Setting::SeedRatioLimit => match ratio {
            Ok(_) => None,
            Err(reason) => Some(reason),
        },
        _ => None,
    }
}

/// `after` is `before` with the value set and nothing else changed.
pub open spec fn value_set(
    before: Config,
    after: Config,
    setting: Setting,
    value: Seq<char>,
    ratio: Result<Real64, Seq<char>>,
) -> bool {
    match setting {
        Setting::Text(key) => exists|s: String|
            s@ == value && after == #[trigger] with_text(before, key, s),
        Setting::Choice(key) => exists|s: String|
            s@ == value && after == #[trigger] with_choice(before, key, s),
        Setting::Flag(key) => after == with_flag(before, key, affirms(value)),
        Setting::Port(key) => after == with_port(before, key, port_of(value)->Ok_0),
        Setting::Number(key) => after == with_number(before, key, number_of(value)->Ok_0),
        Setting::SeedRatioLimit => after == (Config { seed_ratio_limit: ratio->Ok_0, ..before }),
        Setting::WatchDirectories => {
            &&& texts(after.watch_directories@) == filled_lines(split(value, '\n'))
            &&& after == (Config { watch_directories: after.watch_directories, ..before })
        },
    }
}

/// The reading of a real number with the reason as a text.
pub open spec fn ratio_view(ratio: Result<Real64, String>) -> Result<Real64, Seq<char>> {
    match ratio {
        Ok(v) => Ok(v),
        Err(reason) => Err(reason@),
    }
}

/// The configuration that `c` held, a default one left in its place.
fn taken_out(c: &mut Config) -> (r: Config)
    ensures
        r == *old(c),
{
    let mut other = Config::with_home(None);
    core::mem::swap(c, &mut other);
    other
}

/// Sets one value, or tells why it cannot be set. `ratio` is what the value reads as a real
/// number.
pub fn set_value(
    c: &mut Config,
    setting: Setting,
    value: &str,
    ratio: &Result<Real64, String>,
) -> (r: Result<(), String>)
    ensures
        match r {
            Ok(_) => set_refusal(setting, value@, ratio_view(*ratio)) is None && value_set(
                *old(c),
                *final(c),
                setting,
                value@,
                ratio_view(*ratio),
            ),
            Err(reason) => set_refusal(setting, value@, ratio_view(*ratio)) == Some(reason@)
                && *final(c) == *old(c),
        },
{
    match setting {
        Setting::Text(key) => {
            let text = value.to_owned();
            *c = put_text(taken_out(c), key, text);
            assert(*c == with_text(*old(c), key, text));
            Ok(())
        },
        Setting::Choice(key) => {
            if !takes(key, value) {
                return Err(hint(key).to_owned());
            }
            let text = value.to_owned();
            *c = put_choice(taken_out(c), key, text);
            assert(*c == with_choice(*old(c), key, text));
            Ok(())
        },
        Setting::Flag(key) => {
            *c = put_flag(taken_out(c), key, parse_bool(value));
            Ok(())
        },
        Setting::Port(key) => {
            match parse_u16(value) {
                Ok(n) => {
                    *c = put_port(taken_out(c), key, n);
                    Ok(())
                },
                Err(reason) => Err(reason),
            }
        },
        Setting::Number(key) => {
            match parse_i32(value) {
                Ok(n) => {
                    *c = put_number(taken_out(c), key, n);
                    Ok(())
                },
                Err(reason) => Err(reason),
            }
        },
        Setting::SeedRatioLimit => {
            match ratio {
                Ok(v) => {
                    *c = Config { seed_ratio_limit: *v, ..taken_out(c) };
                    Ok(())
                },
                Err(reason) => Err(reason.clone()),
            }
        },
        Setting::WatchDirectories => {
            let lines = text_lines(value);
            *c = Config { watch_directories: lines, ..taken_out(c) };
            Ok(())
        },
    }
}

} // verus!
