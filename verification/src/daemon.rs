//! Starting the daemon, and when its regular chores are due.

use crate::background::{elapsed, Firing};
use crate::config::{is_blank, Config};
use crate::integers::{parse_i32, written_within};
use crate::text::{
    concat2, concat3, concat4, decimal, decimal_i64, decimal_u64, has_prefix, same, strip_prefix,
    trim, trimmed,
};
use vstd::prelude::*;

verus! {

// ----- before the session starts -----

/// Why the daemon refuses to start, where it does: with encryption forced, trackers must not be
/// able to redirect to plain peers.
pub open spec fn start_refusal(config: Config) -> Option<Seq<char>> {
    if config.encryption_mode@ == "forced"@ && !config.ssrf_mitigation {
        Some(
            "encryption_mode = forced requires ssrf_mitigation = true (otherwise tracker redirects to plaintext peers can bypass it)"@,
        )
    } else {
        None
    }
}

/// Why the daemon refuses to start, where it does.
pub fn refuse_start(config: &Config) -> (r: Option<String>)
    ensures
        crate::text::opt_text(r) == start_refusal(*config),
{
    if same(config.encryption_mode.as_str(), "forced") && !config.ssrf_mitigation {
        Some(
            "encryption_mode = forced requires ssrf_mitigation = true (otherwise tracker redirects to plaintext peers can bypass it)".to_owned(),
        )
    } else {
        None
    }
}

/// Whether a proxy is configured, so that it must answer before the session starts.
pub fn needs_proxy(config: &Config) -> (r: bool)
    ensures
        r == (config.proxy_type@ != "none"@),
{
    !same(config.proxy_type.as_str(), "none")
}

/// The address at which the proxy must answer.
pub fn proxy_address(host: &str, port: u16) -> (r: Result<String, String>)
    ensures
        match r {
            Ok(address) => trim(host@).len() > 0 && port != 0 && address@ == host@ + ":"@
                + decimal(port as int),
            Err(why) => (trim(host@).len() == 0 || port == 0) && why@
                == "proxy_type is set but proxy_host / proxy_port are not"@,
        },
{
    if is_blank(host) || port == 0 {
        return Err("proxy_type is set but proxy_host / proxy_port are not".to_owned());
    }
    let number = decimal_u64(port as u64);
    Ok(concat3(host, ":", number.as_str()))
}

/// The process that a pid file names.
pub open spec fn pid_in(text: Seq<char>) -> Option<int> {
    written_within(trim(text), true, i32::MIN as int, i32::MAX as int)
}

/// The process that a pid file names.
pub fn stored_pid(text: &str) -> (r: Option<i32>)
    ensures
        r is Some <==> pid_in(text@) is Some,
        r matches Some(pid) ==> pid_in(text@) == Some(pid as int),
{
    let bare = trimmed(text);
    match parse_i32(bare.as_str()) {
        Ok(pid) => Some(pid),
        Err(_) => None,
    }
}

/// What is told to one who starts a second daemon.
pub fn already_running(pid: i32, pidfile: &str) -> (r: String)
    ensures
        r@ == "another daemon (pid "@ + decimal(pid as int)
            + ") is already running. use `monsoon stop` first, or remove "@ + (pidfile@
            + " if it's stale"@),
{
    let number = decimal_i64(pid as i64);
    let tail = concat2(pidfile, " if it's stale");
    concat4(
        "another daemon (pid ",
        number.as_str(),
        ") is already running. use `monsoon stop` first, or remove ",
        tail.as_str(),
    )
}

/// The address at which the service manager is told that the daemon is up; an abstract one
/// begins with a null.
pub open spec fn notify_address(socket: Seq<char>) -> Seq<char> {
    if has_prefix(socket, "@"@) {
        "\0"@ + socket.skip("@"@.len() as int)
    } else {
        socket
    }
}

/// The address at which the service manager is told that the daemon is up.
pub fn notify_target(socket: &str) -> (r: String)
    ensures
        r@ == notify_address(socket@),
{
    match strip_prefix(socket, "@") {
        Some(rest) => concat2("\0", rest.as_str()),
        None => socket.to_owned(),
    }
}

/// Whether the daemon listens on the network.
pub fn network_configured(config: &Config) -> (r: bool)
    ensures
        r == (trim(config.network_listen_address@).len() > 0),
{
    !is_blank(config.network_listen_address.as_str())
}

/// The address filter to install, and the address to refresh it from first.
#[derive(Debug, Clone, PartialEq, Eq)]
pub struct FilterPlan {
    pub path: String,
    pub url: Option<String>,
}

/// The address filter to install, where one is configured.
pub fn filter_plan(config: &Config) -> (r: Option<FilterPlan>)
    ensures
        r is Some <==> trim(config.ip_filter_path@).len() > 0,
        r matches Some(plan) ==> {
            &&& plan.path == config.ip_filter_path
            &&& plan.url == (if trim(config.ip_filter_url@).len() > 0 {
                Some(config.ip_filter_url)
            } else {
                None
            })
        },
{
    if is_blank(config.ip_filter_path.as_str()) {
        return None;
    }
    let url = if is_blank(config.ip_filter_url.as_str()) {
        None
    } else {
        Some(config.ip_filter_url.clone())
    };
    Some(FilterPlan { path: config.ip_filter_path.clone(), url })
}

/// The names and values that a completion script finds in its environment.
pub open spec fn script_variables(firing: Firing) -> Seq<(Seq<char>, Seq<char>)> {
    let common = seq![
        ("MONSOON_TORRENT_NAME"@, firing.name@),
        ("MONSOON_TORRENT_HASH"@, firing.hash@),
        ("MONSOON_SAVE_PATH"@, firing.save_path@),
        ("MONSOON_TOTAL_SIZE"@, decimal(firing.size as int)),
    ];
    match firing.category {
        Some(name) => common.push(("MONSOON_CATEGORY"@, name@)),
        None => common,
    }
}

/// The names and values that a completion script finds in its environment.
pub fn script_environment(firing: &Firing) -> (r: Vec<(String, String)>)
    ensures
        crate::rss::pair_views(r@) == script_variables(*firing),
{
    let mut out: Vec<(String, String)> = Vec::new();
    let size = decimal_i64(firing.size);
    out.push(("MONSOON_TORRENT_NAME".to_owned(), firing.name.clone()));
    out.push(("MONSOON_TORRENT_HASH".to_owned(), firing.hash.clone()));
    out.push(("MONSOON_SAVE_PATH".to_owned(), firing.save_path.clone()));
    out.push(("MONSOON_TOTAL_SIZE".to_owned(), size));
    if let Some(name) = &firing.category {
        out.push(("MONSOON_CATEGORY".to_owned(), name.clone()));
    }
    assert(crate::rss::pair_views(out@) =~= script_variables(*firing));
    out
}

// ----- chores -----

/// A regular chore.
#[derive(Debug, Clone, Copy, PartialEq, Eq, Structural)]
pub enum Chore {
    /// read the session's messages and look after torrents
    Alerts,
    /// scan the watched folders and check the seed limits
    Watch,
    /// save resume data
    Resume,
    /// poll feeds
    Feeds,
    /// refresh the address filter
    Filter,
}

/// When each chore was last done, in milliseconds; the watched folders are scanned at once.
#[derive(Debug, Clone, Copy, PartialEq, Eq, Structural)]
pub struct Timers {
    pub alerts: u64,
    pub watch: Option<u64>,
    pub resume: u64,
    pub feeds: u64,
    pub filter: u64,
}

/// The time between two scans, in milliseconds.
pub const WATCH_SCAN_INTERVAL: u64 = 5000;

/// The time between two readings of messages, in milliseconds.
pub const ALERT_INTERVAL: u64 = 500;

/// The time between two savings of resume data, in milliseconds.
pub const RESUME_SAVE_INTERVAL: u64 = 300000;

/// The time between two looks at the feeds, in milliseconds.
pub const RSS_CHECK_INTERVAL: u64 = 60000;

/// The time between two refreshes of the address filter, in milliseconds.
pub open spec fn filter_interval(hours: u64) -> u64 {
    if hours * 3600000 > u64::MAX {
        u64::MAX
    } else {
        (hours * 3600000) as u64
    }
}

impl Timers {
    /// The chore is due.
    pub open spec fn is_due(self, chore: Chore, now: u64, scanning: bool, config: Config) -> bool {
        match chore {
            Chore::Alerts => elapsed(self.alerts, now) >= ALERT_INTERVAL,
            Chore::Watch => !scanning && (self.watch matches Some(last) ==> elapsed(last, now)
                >= WATCH_SCAN_INTERVAL),
            Chore::Resume => elapsed(self.resume, now) >= RESUME_SAVE_INTERVAL,
            Chore::Feeds => elapsed(self.feeds, now) >= RSS_CHECK_INTERVAL,
            Chore::Filter => trim(config.ip_filter_url@).len() > 0 && elapsed(self.filter, now)
                >= filter_interval(config.ip_filter_refresh_hours),
        }
    }

    /// The timers of a daemon that starts now.
    pub fn start(now: u64) -> (r: Timers)
        ensures
            r == (Timers { alerts: now, watch: None, resume: now, feeds: now, filter: now }),
    {
        Timers { alerts: now, watch: None, resume: now, feeds: now, filter: now }
    }

    /// Whether the chore is due. The watched folders wait for a scan that is under way.
    pub fn due(&self, chore: Chore, now: u64, scanning: bool, config: &Config) -> (r: bool)
        ensures
            r == self.is_due(chore, now, scanning, *config),
    {
        match chore {
            Chore::Alerts => now.saturating_sub(self.alerts) >= ALERT_INTERVAL,
            Chore::Watch => {
                !scanning && match self.watch {
                    None => true,
                    Some(last) => now.saturating_sub(last) >= WATCH_SCAN_INTERVAL,
                }
            },
            Chore::Resume => now.saturating_sub(self.resume) >= RESUME_SAVE_INTERVAL,
            Chore::Feeds => now.saturating_sub(self.feeds) >= RSS_CHECK_INTERVAL,
            Chore::Filter => {
                let interval: u64 = match config.ip_filter_refresh_hours.checked_mul(3600000) {
                    Some(ms) => ms,
                    None => u64::MAX,
                };
                !is_blank(config.ip_filter_url.as_str()) && now.saturating_sub(self.filter)
                    >= interval
            },
        }
    }

    /// The timers after the chore was done.
    pub open spec fn marked(self, chore: Chore, now: u64) -> Timers {
        match chore {
            Chore::Alerts => Timers { alerts: now, ..self },
            Chore::Watch => Timers { watch: Some(now), ..self },
            Chore::Resume => Timers { resume: now, ..self },
            Chore::Feeds => Timers { feeds: now, ..self },
            Chore::Filter => Timers { filter: now, ..self },
        }
    }

    /// Notes that the chore was done.
    pub fn mark(&mut self, chore: Chore, now: u64)
        ensures
            *final(self) == old(self).marked(chore, now),
    {
        match chore {
            Chore::Alerts => self.alerts = now,
            Chore::Watch => self.watch = Some(now),
            Chore::Resume => self.resume = now,
            Chore::Feeds => self.feeds = now,
            Chore::Filter => self.filter = now,
        }
    }
}

/// A chore that was just done is not due again at once, and doing it leaves the others as due
/// as they were. (The address filter is due again at once where its interval is 0.)
pub proof fn law_done_chore_waits(
    timers: Timers,
    chore: Chore,
    other: Chore,
    now: u64,
    scanning: bool,
    config: Config,
)
    requires
        config.ip_filter_refresh_hours > 0,
    ensures
        !timers.marked(chore, now).is_due(chore, now, scanning, config),
        other != chore ==> timers.marked(chore, now).is_due(other, now, scanning, config)
            == timers.is_due(other, now, scanning, config),
{
}

} // verus!
