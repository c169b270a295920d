//! What the daemon is started with and what reaches it.

use crate::background::Firing;
use crate::cli::{stands_for, token_of, CategoryAction, Command, FeedAction};
use crate::config::Config;
use crate::daemon::{notify_address, pid_in, script_variables, start_refusal, Chore, Timers};
use crate::handle::handled;
use crate::ipc::{ContentLayout, Request, Response};
use crate::network::{hex, hex_char, offered_token};
use crate::paths::joined;
use crate::running::{
    answered, law_pausing_pauses, law_removing_takes_out_one, law_resuming_runs, Running, World,
};
use crate::server::{App, Facts, Handling};
use crate::session::{endpoints, listen_text, settings_of};
use crate::sources::{
    addresses_of, drive_folded, entry_addresses, expanded_input, first_separator, is_separator,
    kind_of, listen_addresses, readable, resolved_as, tilde_expanded, user_home, without_separators,
    KindView, Resolution, Source,
};
use crate::text::{ascii_lower, decimal, has_prefix, join, split, texts, trim};
use vstd::prelude::*;

verus! {

// ----- the session -----

/// The session gets the rates in bytes for the kibibytes that are configured, and all switches,
/// limits and the proxy as they are configured.
pub proof fn law_session_is_set_as_configured(c: Config)
    requires
        0 <= c.download_rate_limit <= 2097151,
        0 <= c.upload_rate_limit <= 2097151,
    ensures
        ({
            let s = settings_of(c);
            &&& s.download_rate_limit == c.download_rate_limit * 1024
            &&& s.upload_rate_limit == c.upload_rate_limit * 1024
            &&& c.max_uploads != -1 ==> s.max_uploads == c.max_uploads
            &&& c.max_uploads == -1 ==> s.max_uploads == 65535
            &&& c.max_connections != -1 ==> s.max_connections == c.max_connections
            &&& c.max_connections == -1 ==> s.max_connections == 65535
            &&& s.enable_dht == c.enable_dht && s.enable_lsd == c.enable_lsd
            &&& s.enable_upnp == c.enable_upnp && s.enable_natpmp == c.enable_natpmp
            &&& s.anonymous_mode == c.anonymous_mode
            &&& s.enable_incoming_utp == c.enable_incoming_utp
            &&& s.enable_outgoing_utp == c.enable_outgoing_utp
            &&& s.announce_to_all_trackers == c.announce_to_all_trackers
            &&& s.announce_to_all_tiers == c.announce_to_all_tiers
            &&& s.ssrf_mitigation == c.ssrf_mitigation
            &&& s.validate_https_trackers == c.validate_https_tracker_certificate
            &&& s.max_active_downloads == c.max_active_downloads
            &&& s.max_active_uploads == c.max_active_uploads
            &&& s.max_active_torrents == c.max_active_torrents
            &&& s.seed_ratio_limit == c.seed_ratio_limit && s.seed_time_limit == c.seed_time_limit
            &&& s.proxy_hostname == c.proxy_host && s.proxy_port == c.proxy_port
            &&& s.proxy_username == c.proxy_username && s.proxy_password == c.proxy_password
            &&& s.proxy_peer_connections == c.proxy_peer_connections
            &&& s.proxy_tracker_connections == c.proxy_tracker_connections
        }),
{
}

/// Encryption is demanded both ways, allowed both ways or refused both ways, as configured.
pub proof fn law_encryption_goes_both_ways(c: Config)
    ensures
        ({
            let s = settings_of(c);
            &&& s.encryption_in_policy == s.encryption_out_policy
            &&& c.encryption_mode@ == "forced"@ ==> s.encryption_in_policy == 0
            &&& c.encryption_mode@ == "enabled"@ ==> s.encryption_in_policy == 1
            &&& c.encryption_mode@ == "disabled"@ ==> s.encryption_in_policy == 2
        }),
{
    reveal_strlit("forced");
    reveal_strlit("enabled");
    reveal_strlit("disabled");
    assert("forced"@.len() == 6 && "enabled"@.len() == 7 && "disabled"@.len() == 8);
}

/// Each type of proxy has its own number, and no proxy has none.
pub proof fn law_proxies_are_told_apart(c: Config)
    ensures
        ({
            let n = settings_of(c).proxy_type;
            &&& n == 1 <==> c.proxy_type@ == "socks4"@
            &&& n == 2 <==> c.proxy_type@ == "socks5"@
            &&& n == 3 <==> c.proxy_type@ == "socks5_pw"@
            &&& n == 4 <==> c.proxy_type@ == "http"@
            &&& n == 5 <==> c.proxy_type@ == "http_pw"@
            &&& n == 6 <==> c.proxy_type@ == "i2p"@
            &&& 0 <= n <= 6
        }),
{
    reveal_strlit("socks4");
    reveal_strlit("socks5");
    reveal_strlit("socks5_pw");
    reveal_strlit("http");
    reveal_strlit("http_pw");
    reveal_strlit("i2p");
    assert("socks4"@.len() == 6 && "socks5"@.len() == 6 && "socks5_pw"@.len() == 9);
    assert("http"@.len() == 4 && "http_pw"@.len() == 7 && "i2p"@.len() == 3);
    assert("socks4"@[5] == '4' && "socks5"@[5] == '5');
}

/// The session listens at the configured port: on the configured address, or on every address of
/// the configured interfaces.
pub proof fn law_session_listens_at_the_port(c: Config, ips: Seq<Seq<char>>, first: Seq<char>, second: Seq<char>)
    ensures
        c.listen_interfaces@.len() == 0 ==> listen_text(c, ips) == c.listen_address@ + ":"@
            + decimal(c.listen_port as int),
        c.listen_interfaces@.len() > 0 ==> listen_text(c, seq![first]) == first + ":"@ + decimal(
            c.listen_port as int,
        ),
        c.listen_interfaces@.len() > 0 ==> listen_text(c, seq![first, second]) == first + ":"@
            + decimal(c.listen_port as int) + ","@ + second + ":"@ + decimal(c.listen_port as int),
{
    let port = c.listen_port as int;
    let one = endpoints(seq![first], port);
    let two = endpoints(seq![first, second], port);
    assert(one =~= seq![first + ":"@ + decimal(port)]);
    assert(two =~= seq![first + ":"@ + decimal(port), second + ":"@ + decimal(port)]);
    reveal_with_fuel(join, 3);
    assert(two.drop_last() =~= seq![first + ":"@ + decimal(port)]);
    assert(join(two, ","@) =~= first + ":"@ + decimal(port) + ","@ + second + ":"@ + decimal(port));
}

/// The addresses of an interface are those that the machine lists for it.
proof fn lemma_addresses_of(interfaces: Seq<(String, String)>, name: Seq<char>, n: int, ip: Seq<char>)
    requires
        0 <= n <= interfaces.len(),
    ensures
        addresses_of(interfaces, name, n).contains(ip) <==> exists|i: int|
            0 <= i < n && (#[trigger] interfaces[i]).0@ == name && interfaces[i].1@ == ip,
    decreases n,
{
    if n > 0 {
        let before = addresses_of(interfaces, name, n - 1);
        let all = addresses_of(interfaces, name, n);
        lemma_addresses_of(interfaces, name, n - 1, ip);
        if before.contains(ip) {
            assert(all[before.index_of(ip)] == ip);
            let i = choose|i: int|
                0 <= i < n - 1 && (#[trigger] interfaces[i]).0@ == name && interfaces[i].1@ == ip;
            assert(interfaces[i].0@ == name);
        }
        if all.contains(ip) {
            let k = all.index_of(ip);
            if k < before.len() {
                assert(before[k] == ip);
            } else {
                assert(interfaces[n - 1].0@ == name);
            }
        }
        if interfaces[n - 1].0@ == name {
            assert(all[before.len() as int] == interfaces[n - 1].1@);
        }
    }
}

/// An address is listened on where it is itself configured, or belongs to an interface that is.
pub proof fn law_configured_addresses_are_listened_on(
    entries: Seq<Seq<char>>,
    literal: Seq<bool>,
    interfaces: Seq<(String, String)>,
    n: int,
    ip: Seq<char>,
)
    requires
        0 <= n <= entries.len() == literal.len(),
    ensures
        entry_addresses(entries, literal, interfaces, n).contains(ip) <==> exists|k: int|
            0 <= k < n && trim(#[trigger] entries[k]).len() > 0 && (if literal[k] {
                ip == trim(entries[k])
            } else {
                exists|i: int|
                    0 <= i < interfaces.len() && (#[trigger] interfaces[i]).0@ == trim(entries[k])
                        && interfaces[i].1@ == ip
            }),
    decreases n,
{
    if n > 0 {
        let before = entry_addresses(entries, literal, interfaces, n - 1);
        let all = entry_addresses(entries, literal, interfaces, n);
        let entry = trim(entries[n - 1]);
        let own = addresses_of(interfaces, entry, interfaces.len() as int);
        law_configured_addresses_are_listened_on(entries, literal, interfaces, n - 1, ip);
        lemma_addresses_of(interfaces, entry, interfaces.len() as int, ip);
        if before.contains(ip) {
            assert(all[before.index_of(ip)] == ip);
            let k = choose|k: int|
                0 <= k < n - 1 && trim(#[trigger] entries[k]).len() > 0 && (if literal[k] {
                    ip == trim(entries[k])
                } else {
                    exists|i: int|
                        0 <= i < interfaces.len() && (#[trigger] interfaces[i]).0@ == trim(
                            entries[k],
                        ) && interfaces[i].1@ == ip
                });
            assert(trim(entries[k]).len() > 0);
        }
        if all.contains(ip) {
            let m = all.index_of(ip);
            if m < before.len() {
                assert(before[m] == ip);
            } else if entry.len() > 0 && !literal[n - 1] {
                assert(own[m - before.len()] == ip);
            }
            assert(trim(entries[n - 1]) == entry);
        }
        if entry.len() > 0 && literal[n - 1] {
            assert(all[before.len() as int] == entry);
        }
        if entry.len() > 0 && !literal[n - 1] && own.contains(ip) {
            assert(all[before.len() + own.index_of(ip)] == ip);
        }
    }
}

/// Where nothing configured has an address the session listens everywhere.
pub proof fn law_without_addresses_all_are_listened_on(
    entries: Seq<Seq<char>>,
    literal: Seq<bool>,
    interfaces: Seq<(String, String)>,
)
    ensures
        entry_addresses(entries, literal, interfaces, entries.len() as int).len() == 0
            ==> listen_addresses(entries, literal, interfaces) == seq!["0.0.0.0"@],
        entry_addresses(entries, literal, interfaces, entries.len() as int).len() > 0
            ==> listen_addresses(entries, literal, interfaces) == entry_addresses(
            entries,
            literal,
            interfaces,
            entries.len() as int,
        ),
{
}

// ----- the daemon -----

/// The daemon starts unless encryption is forced while trackers may redirect to plain peers.
pub proof fn law_forced_encryption_needs_mitigation(c: Config)
    ensures
        start_refusal(c) is Some <==> c.encryption_mode@ == "forced"@ && !c.ssrf_mitigation,
{
}

/// Messages are read twice a second, folders are scanned every five seconds, resume data is
/// saved every five minutes and feeds are looked at every minute; the filter is refreshed every
/// so many hours. No scan starts while one is under way, and the first needs no waiting.
pub proof fn law_chores_are_regular(timers: Timers, now: u64, scanning: bool, c: Config)
    requires
        c.ip_filter_refresh_hours * 3600 * 1000 <= u64::MAX,
    ensures
        timers.is_due(Chore::Alerts, now, scanning, c) <==> now >= timers.alerts + 500,
        timers.is_due(Chore::Resume, now, scanning, c) <==> now >= timers.resume + 5 * 60 * 1000,
        timers.is_due(Chore::Feeds, now, scanning, c) <==> now >= timers.feeds + 60 * 1000,
        scanning ==> !timers.is_due(Chore::Watch, now, scanning, c),
        !scanning && timers.watch is None ==> timers.is_due(Chore::Watch, now, scanning, c),
        !scanning ==> (timers.watch matches Some(last) ==> (timers.is_due(
            Chore::Watch,
            now,
            scanning,
            c,
        ) <==> now >= last + 5 * 1000)),
        c.ip_filter_refresh_hours > 0 ==> (timers.is_due(Chore::Filter, now, scanning, c)
            <==> trim(c.ip_filter_url@).len() > 0 && now >= timers.filter
            + c.ip_filter_refresh_hours * 3600 * 1000),
{
}

/// The script of a torrent that finished finds its name, hash, folder and size in its
/// environment, and its category where it has one.
pub proof fn law_scripts_are_told(f: Firing)
    ensures
        script_variables(f).contains(("MONSOON_TORRENT_NAME"@, f.name@)),
        script_variables(f).contains(("MONSOON_TORRENT_HASH"@, f.hash@)),
        script_variables(f).contains(("MONSOON_SAVE_PATH"@, f.save_path@)),
        script_variables(f).contains(("MONSOON_TOTAL_SIZE"@, decimal(f.size as int))),
        f.category matches Some(name) ==> script_variables(f).contains(
            ("MONSOON_CATEGORY"@, name@),
        ),
        script_variables(f).len() == (if f.category is Some {
            5nat
        } else {
            4nat
        }),
{
    let v = script_variables(f);
    assert(v[0] == ("MONSOON_TORRENT_NAME"@, f.name@));
    assert(v[1] == ("MONSOON_TORRENT_HASH"@, f.hash@));
    assert(v[2] == ("MONSOON_SAVE_PATH"@, f.save_path@));
    assert(v[3] == ("MONSOON_TOTAL_SIZE"@, decimal(f.size as int)));
    if let Some(name) = f.category {
        assert(v[4] == ("MONSOON_CATEGORY"@, name@));
    }
}

/// An abstract address begins with a null in place of the sign; any other stays.
pub proof fn law_abstract_addresses_begin_with_a_null(rest: Seq<char>)
    ensures
        notify_address("@"@ + rest) == "\0"@ + rest,
        rest.len() > 0 && rest[0] != '@' ==> notify_address(rest) == rest,
{
    reveal_strlit("@");
    let s = "@"@ + rest;
    assert(s.subrange(0, 1) =~= "@"@);
    assert(s.skip(1) =~= rest);
    if rest.len() > 0 && rest[0] != '@' {
        assert(rest.subrange(0, 1)[0] != "@"@[0]);
    }
}

/// A process number that is written to a file is read back, whatever white space is around it.
pub proof fn law_process_numbers_are_read_back(text: Seq<char>, pid: int)
    requires
        trim(text) == decimal(pid),
        -0x8000_0000 <= pid <= 0x7fff_ffff,
    ensures
        pid_in(text) == Some(pid),
{
    crate::text_laws::law_decimals_are_read_back(pid);
}

// ----- tokens -----

/// The number that a hexadecimal digit stands for.
pub open spec fn hex_value(c: char) -> int {
    if '0' <= c <= '9' {
        c as int - '0' as int
    } else {
        c as int - 'a' as int + 10
    }
}

/// A token shows each byte by two hexadecimal digits, the high one first.
pub proof fn law_bytes_are_shown_in_hexadecimal(bytes: Seq<u8>, i: int)
    requires
        0 <= i < bytes.len(),
    ensures
        hex(bytes).len() == 2 * bytes.len(),
        16 * hex_value(hex(bytes)[2 * i]) + hex_value(hex(bytes)[2 * i + 1]) == bytes[i],
        0 <= hex_value(hex(bytes)[2 * i]) < 16,
        0 <= hex_value(hex(bytes)[2 * i + 1]) < 16,
    decreases bytes.len(),
{
    lemma_hex_length(bytes.drop_last());
    let before = hex(bytes.drop_last());
    let all = hex(bytes);
    if i < bytes.len() - 1 {
        law_bytes_are_shown_in_hexadecimal(bytes.drop_last(), i);
        assert(all[2 * i] == before[2 * i]);
        assert(all[2 * i + 1] == before[2 * i + 1]);
    } else {
        let b = bytes.last() as int;
        assert(all[2 * i] == hex_char(b / 16));
        assert(all[2 * i + 1] == hex_char(b % 16));
    }
}

/// Two digits stand for each byte.
proof fn lemma_hex_length(bytes: Seq<u8>)
    ensures
        hex(bytes).len() == 2 * bytes.len(),
    decreases bytes.len(),
{
    if bytes.len() > 0 {
        lemma_hex_length(bytes.drop_last());
    }
}

/// A token that is given counts most, then one of the environment unless it is empty, then that
/// of the file.
pub proof fn law_given_tokens_count_most(
    given: Seq<char>,
    environment: Option<Seq<char>>,
    stored: Option<Seq<char>>,
    named: Seq<char>,
)
    requires
        named.len() > 0,
    ensures
        token_of(Some(given), environment, stored) == Some(given),
        token_of(None, Some(named), stored) == Some(named),
        token_of(None, None, stored) == token_of(None, Some(Seq::empty()), stored),
        stored matches Some(text) ==> token_of(None, None, stored) == Some(trim(text)),
        stored is None ==> token_of(None, None, stored) is None,
{
}

// ----- commands of the command line -----

/// A command for one torrent, once its request is answered, does to that torrent what it names
/// and nothing to any other.
pub proof fn law_command_line_commands_torrents(
    command: Command,
    request: Request,
    before: App,
    after: App,
    facts: Facts,
    out: Handling,
    w: World,
    index: usize,
)
    requires
        stands_for(command, request),
        handled(before, after, request, facts, out),
        index < before.torrents@.len() == w.torrents.len(),
    ensures
        ({
            let t = w.torrents[index as int];
            let i = index as int;
            &&& command == (Command::Pause { index }) ==> answered(
                w,
                out,
                World {
                    torrents: w.torrents.update(
                        i,
                        Running { paused: true, saves: t.saves + 1, ..t },
                    ),
                    ..w
                },
                Response::Done,
            )
            &&& command == (Command::Resume { index }) ==> answered(
                w,
                out,
                World {
                    torrents: w.torrents.update(
                        i,
                        Running { paused: false, saves: t.saves + 1, ..t },
                    ),
                    ..w
                },
                Response::Done,
            )
            &&& command == (Command::Remove { index, delete_files: true }) ==> answered(
                w,
                out,
                World {
                    torrents: w.torrents.remove(i),
                    gone: w.gone.push((before.torrents@[i].info_hash@, true)),
                    lists: w.lists + 1,
                    ..w
                },
                Response::Done,
            )
            &&& command == (Command::Remove { index, delete_files: false }) ==> answered(
                w,
                out,
                World {
                    torrents: w.torrents.remove(i),
                    gone: w.gone.push((before.torrents@[i].info_hash@, false)),
                    lists: w.lists + 1,
                    ..w
                },
                Response::Done,
            )
        }),
{
    if command == (Command::Pause { index }) {
        law_pausing_pauses(before, after, index, facts, out, w);
    }
    if command == (Command::Resume { index }) {
        law_resuming_runs(before, after, index, facts, out, w);
    }
    if let Command::Remove { index: i, delete_files } = command {
        if i == index {
            law_removing_takes_out_one(before, after, index, delete_files, facts, out, w);
        }
    }
}

/// Each command of the command line sends the request that it names, for the torrent that it
/// names and with the values that were given.
pub proof fn law_commands_send_their_requests(command: Command, request: Request)
    requires
        stands_for(command, request),
    ensures
        command is List <==> request is List,
        command is Info <==> request is Info,
        command is Add <==> request is Add,
        command is Remove <==> request is Remove,
        command is Pause <==> request is Pause,
        command is Resume <==> request is Resume,
        command is Recheck <==> request is Recheck,
        command is Stats <==> request is Stats,
        command is Config <==> request is GetConfig,
        command is SetConfig <==> request is SetConfig,
        command is Rename <==> request is RenameFile,
        command is RenameFolder <==> request is RenameFolder,
        command is Move <==> request is Move,
        command is Reannounce <==> request is Reannounce,
        command is Priority <==> request is SetFilePriority,
        command is Magnet <==> request is Magnet,
        command is Sequential <==> request is SetSequential,
        command is Tags <==> request is SetTags,
        command is Retag <==> request is RetagAll,
        command is Bind <==> request is SetTorrentInterface,
        command is Limit <==> request is SetTorrentRateLimit,
        command is Stop <==> request is Shutdown,
        request matches Request::Info { index } ==> command == (Command::Info { index }),
        request matches Request::Recheck { index } ==> command == (Command::Recheck { index }),
        request matches Request::Reannounce { index } ==> command == (Command::Reannounce {
            index,
        }),
        request matches Request::Magnet { index } ==> command == (Command::Magnet { index }),
        request matches Request::SetConfig { key, value } ==> command == (Command::SetConfig {
            key,
            value,
        }),
        request matches Request::RenameFile { index, file_index, new_name } ==> command
            == (Command::Rename { index, file_index, new_name }),
        request matches Request::RenameFolder { index, old_prefix, new_prefix } ==> command
            == (Command::RenameFolder { index, old_prefix, new_prefix }),
        request matches Request::Move { index, new_save_path } ==> command == (Command::Move {
            index,
            new_save_path,
        }),
        request matches Request::SetFilePriority { index, file_index, priority } ==> command
            == (Command::Priority { index, file_index, priority }),
        request matches Request::SetTorrentInterface { index, interface } ==> command
            == (Command::Bind { index, interface }),
        request matches Request::Add { uri, save_path, category, start_paused, content_layout }
            ==> command == (Command::Add { uri, save_path, category }) && !start_paused
            && content_layout == ContentLayout::Default,
        request matches Request::SetSequential { index, enabled } ==> (
        command matches Command::Sequential { index: i, enabled: word } && i == index && (enabled
            <==> word@ == "on"@ || word@ == "true"@ || word@ == "1"@ || word@ == "yes"@)),
        request matches Request::SetTorrentRateLimit { index, download, upload } ==> (
        command matches Command::Limit { index: i, download: d, upload: u } && i == index && (
        d matches Some(n) ==> download == n) && (d is None ==> download == -1) && (
        u matches Some(n) ==> upload == n) && (u is None ==> upload == -1)),
        request matches Request::SetTags { index, tags } ==> (command matches Command::Tags {
            index: i,
            tags: list,
        } && i == index && forall|t: Seq<char>| #[trigger]
            tags.has(t) <==> texts(list@).contains(t)),
{
}

/// The commands on categories and feeds send the requests that they name, with the values that
/// were given.
pub proof fn law_actions_send_their_requests(command: Command, request: Request)
    requires
        stands_for(command, request),
    ensures
        request is ListCategories <==> command == (Command::Category {
            action: CategoryAction::List,
        }),
        request matches Request::SetCategoryDefinition { name, save_path, add_tags } ==> command
            == (Command::Category {
            action: CategoryAction::Define { name, save_path, tag: add_tags },
        }),
        request matches Request::RemoveCategory { name } ==> command == (Command::Category {
            action: CategoryAction::Remove { name },
        }),
        request matches Request::SetCategory { index, name } ==> command == (Command::Category {
            action: CategoryAction::Assign { index, name },
        }),
        request is ListFeeds <==> command == (Command::Feed { action: FeedAction::List }),
        request is PollFeeds <==> command == (Command::Feed { action: FeedAction::Poll }),
        request matches Request::RemoveFeed { index } ==> command == (Command::Feed {
            action: FeedAction::Remove { index },
        }),
        request matches Request::AddFeed {
            url,
            filter,
            category,
            save_path,
            poll_interval_minutes,
            start_paused,
        } ==> command == (Command::Feed {
            action: FeedAction::Add {
                url,
                filter,
                category,
                save_path,
                interval: poll_interval_minutes,
                paused: start_paused,
            },
        }),
{
}

// ----- what is to be added -----

/// Whatever begins with `magnet:` is a magnet link, and what begins with one of the four schemes
/// that can be fetched is an address; both are taken as they are, without the white space around
/// them. The rest is a path, or a pattern where nothing lies at it literally.
pub proof fn law_inputs_are_told_apart(
    input: Seq<char>,
    home: Option<Seq<char>>,
    passwd: Option<Seq<char>>,
    there: bool,
    r: Resolution,
)
    requires
        resolved_as(kind_of(input, home, passwd, there), input, there, r),
    ensures
        ({
            let bare = trim(input);
            let low = ascii_lower(bare);
            let link = has_prefix(bare, "magnet:"@);
            let address = has_prefix(low, "http://"@) || has_prefix(low, "https://"@)
                || has_prefix(low, "ftp://"@) || has_prefix(low, "sftp://"@);
            &&& bare.len() == 0 ==> r is Refused
            &&& bare.len() > 0 && link ==> (r matches Resolution::Ready(Source::Magnet(text))
                && text@ == bare)
            &&& bare.len() > 0 && !link && address ==> (r matches Resolution::Fetch(url) && url@
                == bare)
            &&& bare.len() > 0 && !link && !address && there ==> (r matches Resolution::Ready(
                Source::File(path),
            ) && path@ == drive_folded(expanded_input(input, home, passwd)))
            &&& bare.len() > 0 && !link && !address && !there ==> r is Refused
        }),
{
}

/// A pattern is one only where a character of it has a meaning in patterns.
pub proof fn law_patterns_have_meaning(
    input: Seq<char>,
    home: Option<Seq<char>>,
    passwd: Option<Seq<char>>,
    there: bool,
)
    ensures
        kind_of(input, home, passwd, there) matches Some(KindView::LocalGlob(p)) ==> !there && (
        p.contains('*') || p.contains('?') || p.contains('[')) && p == expanded_input(
            input,
            home,
            passwd,
        ),
        kind_of(input, home, passwd, there) matches Some(KindView::LocalPath(p)) ==> there || !(
        expanded_input(input, home, passwd).contains('*') || expanded_input(
            input,
            home,
            passwd,
        ).contains('?') || expanded_input(input, home, passwd).contains('[')),
{
}

/// A path below the home folder is written with a tilde; paths without one stay as they are.
pub proof fn law_tilde_is_the_home_folder(
    path: Seq<char>,
    home: Seq<char>,
    passwd: Option<Seq<char>>,
)
    requires
        path.len() == 0 || !is_separator(path[0]),
    ensures
        tilde_expanded("~/"@ + path, Some(home), passwd) == Some(joined(home, path)),
        tilde_expanded("~"@, Some(home), passwd) == Some(joined(home, Seq::empty())),
        path.len() > 0 && path[0] != '~' ==> tilde_expanded(path, Some(home), passwd) == Some(path),
        tilde_expanded("~/"@ + path, None, passwd) is None,
{
    reveal_strlit("~/");
    reveal_strlit("~");
    let s = "~/"@ + path;
    assert(s.subrange(0, 1) =~= "~"@);
    let rest = s.skip(1);
    assert(rest[0] == '/');
    assert(rest.skip(1) =~= path);
    assert(without_separators(rest) == without_separators(path));
    assert(without_separators(path) == path);
    assert("~"@.subrange(0, 1) =~= "~"@);
    assert("~"@.skip(1) =~= Seq::<char>::empty());
    if path.len() > 0 && path[0] != '~' {
        assert(path.subrange(0, 1)[0] != "~"@[0]);
    }
}

/// The position of the first separator behind a name.
proof fn lemma_separator_behind(name: Seq<char>, rest: Seq<char>)
    requires
        forall|i: int| 0 <= i < name.len() ==> !is_separator(#[trigger] name[i]),
    ensures
        first_separator(name + "/"@ + rest) == name.len(),
    decreases name.len(),
{
    reveal_strlit("/");
    let s = name + "/"@ + rest;
    if name.len() > 0 {
        assert(s[0] == name[0]);
        let tail = name.skip(1);
        assert forall|i: int| 0 <= i < tail.len() implies !is_separator(#[trigger] tail[i]) by {
            assert(tail[i] == name[i + 1]);
        }
        lemma_separator_behind(tail, rest);
        assert(s.skip(1) =~= tail + "/"@ + rest);
    } else {
        assert(s[0] == '/');
    }
}

/// A tilde with a name is the home folder that the user table gives the user of that name; of a
/// user that it does not know the path stays as it is.
pub proof fn law_tilde_with_a_name_is_that_users_home(
    name: Seq<char>,
    path: Seq<char>,
    home: Option<Seq<char>>,
    table: Seq<char>,
)
    requires
        name.len() > 0,
        forall|i: int| 0 <= i < name.len() ==> !is_separator(#[trigger] name[i]),
        path.len() == 0 || !is_separator(path[0]),
    ensures
        ({
            let input = "~"@ + name + "/"@ + path;
            match user_home(split(table, '\n'), 0, name) {
                Some(folder) => tilde_expanded(input, home, Some(table)) == Some(
                    joined(folder, path),
                ),
                None => tilde_expanded(input, home, Some(table)) == Some(input),
            }
        }),
{
    reveal_strlit("~");
    reveal_strlit("/");
    let input = "~"@ + name + "/"@ + path;
    assert(input.subrange(0, 1) =~= "~"@);
    let rest = input.skip(1);
    assert(rest =~= name + "/"@ + path);
    lemma_separator_behind(name, path);
    assert(rest.take(name.len() as int) =~= name);
    let tail = rest.skip(name.len() as int);
    assert(tail =~= "/"@ + path);
    assert(tail[0] == '/');
    assert(tail.skip(1) =~= path);
    assert(without_separators(path) == path);
}

/// The home folder of a user is the sixth field of their line in the table.
pub proof fn law_sixth_field_is_the_home(
    lines: Seq<Seq<char>>,
    k: int,
    user: Seq<char>,
)
    requires
        0 <= k < lines.len(),
        split(lines[k], ':').len() >= 6,
        split(lines[k], ':')[0] == user,
        lines[k].len() == 0 || lines[k].last() != '\r',
        forall|j: int|
            0 <= j < k ==> (#[trigger] lines[j]).len() == 0 || lines[j].last() != '\r',
        forall|j: int| 0 <= j < k ==> split(#[trigger] lines[j], ':')[0] != user,
    ensures
        user_home(lines, 0, user) == Some(split(lines[k], ':')[5]),
{
    lemma_user_home(lines, 0, k, user);
}

/// The lines before the user's are passed over.
proof fn lemma_user_home(lines: Seq<Seq<char>>, from: int, k: int, user: Seq<char>)
    requires
        0 <= from <= k < lines.len(),
        split(lines[k], ':').len() >= 6,
        split(lines[k], ':')[0] == user,
        lines[k].len() == 0 || lines[k].last() != '\r',
        forall|j: int|
            0 <= j < k ==> (#[trigger] lines[j]).len() == 0 || lines[j].last() != '\r',
        forall|j: int| 0 <= j < k ==> split(#[trigger] lines[j], ':')[0] != user,
    ensures
        user_home(lines, from, user) == Some(split(lines[k], ':')[5]),
    decreases k - from,
{
    if from < k {
        lemma_user_home(lines, from + 1, k, user);
        assert(split(lines[from], ':')[0] != user);
    }
}

/// Of what a pattern finds those entries are kept that can be read.
pub proof fn law_readable_entries_are_kept(walk: Seq<Option<String>>, path: Seq<char>)
    ensures
        readable(walk).contains(path) <==> exists|i: int|
            0 <= i < walk.len() && ((#[trigger] walk[i]) matches Some(p) && p@ == path),
    decreases walk.len(),
{
    if walk.len() > 0 {
        let init = walk.drop_last();
        let before = readable(init);
        let all = readable(walk);
        law_readable_entries_are_kept(init, path);
        if before.contains(path) {
            assert(all[before.index_of(path)] == path);
            let i = choose|i: int|
                0 <= i < init.len() && ((#[trigger] init[i]) matches Some(p) && p@ == path);
            assert(walk[i] == init[i]);
        }
        if exists|i: int| 0 <= i < walk.len() && ((#[trigger] walk[i]) matches Some(p) && p@ == path) {
            let i = choose|i: int|
                0 <= i < walk.len() && ((#[trigger] walk[i]) matches Some(p) && p@ == path);
            if i < init.len() {
                assert(init[i] == walk[i]);
            } else {
                assert(all[before.len() as int] == path);
            }
        }
        if all.contains(path) {
            let k = all.index_of(path);
            if k < before.len() {
                assert(before[k] == path);
            } else {
                assert(walk[walk.len() - 1] is Some);
            }
        }
    }
}

/// Only the line that carries the token lets in, whatever white space is around it.
pub proof fn law_token_lines_are_exact(line: Seq<char>, token: Seq<char>)
    ensures
        offered_token(line) == Some(token) <==> trim(line) == "AUTH "@ + token,
{
    reveal_strlit("AUTH ");
    let bare = trim(line);
    if offered_token(line) == Some(token) {
        assert(bare =~= bare.subrange(0, 5) + bare.skip(5));
    }
    if bare == "AUTH "@ + token {
        assert(bare.subrange(0, 5) =~= "AUTH "@);
        assert(bare.skip(5) =~= token);
    }
}

} // verus!
