//! The tables and lines that the command line prints for each answer.

use crate::display::{
    align, aligned, byte_text, format_bytes, format_rate, format_state, format_timestamp, pad,
    padded, rate_text, repeat_char, repeated, shown_time, state_code, truncate_to_width, truncated,
};
use crate::ipc::{
    CategoryInfo, FeedInfo, FileInfo, PeerInfo, Response, StatsInfo, TorrentDetail, TorrentInfo,
    TrackerInfo,
};
use crate::text::{
    concat2, concat3, concat4, decimal, decimal_i64, decimal_u64, is_empty, join, join_with, same,
    texts,
};
use vstd::prelude::*;

verus! {

/// The cells of a row with blanks between them.
pub open spec fn row(cells: Seq<Seq<char>>) -> Seq<char> {
    join(cells, " "@)
}

/// A line across the table.
pub open spec fn rule(n: int) -> Seq<char> {
    repeated('\u{2500}', n)
}

/// The texts followed by another.
fn with_line(lines: Vec<String>, line: String) -> (r: Vec<String>)
    ensures
        texts(r@) == texts(lines@).push(line@),
{
    let mut out = lines;
    let ghost before = out@;
    out.push(line);
    assert(texts(out@) =~= texts(before).push(line@));
    out
}

/// The texts followed by others.
fn with_lines(lines: Vec<String>, more: Vec<String>) -> (r: Vec<String>)
    ensures
        texts(r@) == texts(lines@) + texts(more@),
{
    let mut out = lines;
    let mut rest = more;
    let ghost a = out@;
    let ghost b = rest@;
    out.append(&mut rest);
    assert(texts(out@) =~= texts(a) + texts(b));
    out
}

/// A list of one text.
fn one(line: String) -> (r: Vec<String>)
    ensures
        texts(r@) == seq![line@],
{
    let mut out: Vec<String> = Vec::new();
    out.push(line);
    assert(texts(out@) =~= seq![line@]);
    out
}

// ----- torrents -----

/// The heading of the list of torrents.
pub open spec fn torrent_heading() -> Seq<char> {
    row(
        seq![
            padded("#"@, 4),
            padded("name"@, 32),
            padded("st"@, 4),
            aligned("prog"@, 7),
            aligned("down"@, 12),
            aligned("up"@, 12),
            padded("peers"@, 14),
        ],
    )
}

/// The line of one torrent; `share` is its progress as it is shown.
pub open spec fn torrent_line(t: TorrentInfo, share: Seq<char>) -> Seq<char> {
    row(
        seq![
            padded(decimal(t.index as int), 4),
            padded(truncated(t.name@, 31), 32),
            padded(state_code(t.state@), 4),
            aligned(share, 7),
            aligned(rate_text(t.download_rate), 12),
            aligned(rate_text(t.upload_rate), 12),
            decimal(t.connected_peers as int) + "/"@ + decimal(t.total_peers as int),
            "S:"@ + decimal(t.connected_seeds as int),
        ],
    )
}

/// The list of torrents.
pub open spec fn torrent_lines(list: Seq<TorrentInfo>, shares: Seq<Seq<char>>) -> Seq<Seq<char>> {
    if list.len() == 0 {
        seq!["no torrents"@]
    } else {
        seq![torrent_heading(), rule(90)] + Seq::new(
            list.len(),
            |i: int| torrent_line(list[i], shares[i]),
        )
    }
}

/// The heading of the list of torrents.
fn write_torrent_heading() -> (r: String)
    ensures
        r@ == torrent_heading(),
{
    let c = one(pad("#", 4));
    let c = with_line(c, pad("name", 32));
    let c = with_line(c, pad("st", 4));
    let c = with_line(c, align("prog", 7));
    let c = with_line(c, align("down", 12));
    let c = with_line(c, align("up", 12));
    let c = with_line(c, pad("peers", 14));
    assert(texts(c@) =~= seq![
        padded("#"@, 4),
        padded("name"@, 32),
        padded("st"@, 4),
        aligned("prog"@, 7),
        aligned("down"@, 12),
        aligned("up"@, 12),
        padded("peers"@, 14),
    ]);
    join_with(&c, " ")
}

/// The line of one torrent.
fn write_torrent(t: &TorrentInfo, share: &str) -> (r: String)
    ensures
        r@ == torrent_line(*t, share@),
{
    let index = decimal_u64(t.index as u64);
    let name = truncate_to_width(t.name.as_str(), 31);
    let state = format_state(t.state.as_str());
    let down = format_rate(t.download_rate);
    let up = format_rate(t.upload_rate);
    let near = decimal_i64(t.connected_peers);
    let all = decimal_i64(t.total_peers);
    let seeds = decimal_i64(t.connected_seeds);
    let c = one(pad(index.as_str(), 4));
    let c = with_line(c, pad(name.as_str(), 32));
    let c = with_line(c, pad(state.as_str(), 4));
    let c = with_line(c, align(share, 7));
    let c = with_line(c, align(down.as_str(), 12));
    let c = with_line(c, align(up.as_str(), 12));
    let c = with_line(c, concat3(near.as_str(), "/", all.as_str()));
    let c = with_line(c, concat2("S:", seeds.as_str()));
    assert(texts(c@) =~= seq![
        padded(decimal(t.index as int), 4),
        padded(truncated(t.name@, 31), 32),
        padded(state_code(t.state@), 4),
        aligned(share@, 7),
        aligned(rate_text(t.download_rate), 12),
        aligned(rate_text(t.upload_rate), 12),
        decimal(t.connected_peers as int) + "/"@ + decimal(t.total_peers as int),
        "S:"@ + decimal(t.connected_seeds as int),
    ]);
    join_with(&c, " ")
}

/// The list of torrents; `shares` is the progress of each as it is shown.
pub fn list_torrents(list: &Vec<TorrentInfo>, shares: &Vec<String>) -> (r: Vec<String>)
    requires
        shares@.len() == list@.len(),
    ensures
        texts(r@) == torrent_lines(list@, texts(shares@)),
{
    if list.len() == 0 {
        return one("no torrents".to_owned());
    }
    let mut out = one(write_torrent_heading());
    out = with_line(out, repeat_char('\u{2500}', 90));
    let ghost all = torrent_lines(list@, texts(shares@));
    let mut i: usize = 0;
    assert(texts(out@) =~= all.take(2));
    while i < list.len()
        invariant
            i <= list@.len(),
            list@.len() > 0,
            shares@.len() == list@.len(),
            all == torrent_lines(list@, texts(shares@)),
            texts(out@) == all.take(i + 2),
        decreases list@.len() - i,
    {
        let line = write_torrent(&list[i], shares[i].as_str());
        assert(all[i + 2] == line@);
        out = with_line(out, line);
        assert(texts(out@) =~= all.take(i + 3));
        i = i + 1;
    }
    assert(texts(out@) =~= all);
    out
}

// ----- files, trackers and peers -----

/// The line of one file; `share` is its progress as it is shown.
pub open spec fn file_line(f: FileInfo, share: Seq<char>) -> Seq<char> {
    row(
        seq![
            padded(decimal(f.index as int), 4),
            padded(truncated(f.path@, 47), 48),
            aligned(byte_text(f.size as u64, true), 12),
            aligned(share, 6) + "%"@,
            aligned(decimal(f.priority as int), 4),
        ],
    )
}

/// The heading of the list of files.
pub open spec fn file_heading() -> Seq<char> {
    row(
        seq![
            padded("#"@, 4),
            padded("path"@, 48),
            aligned("size"@, 12),
            aligned("prog"@, 7),
            aligned("pri"@, 4),
        ],
    )
}

/// The list of files.
pub open spec fn file_lines(files: Seq<FileInfo>, shares: Seq<Seq<char>>) -> Seq<Seq<char>> {
    seq![file_heading(), rule(80)] + Seq::new(files.len(), |i: int| file_line(files[i], shares[i]))
}

/// The list of files.
pub fn list_files(files: &Vec<FileInfo>, shares: &Vec<String>) -> (r: Vec<String>)
    requires
        shares@.len() == files@.len(),
    ensures
        texts(r@) == file_lines(files@, texts(shares@)),
{
    let c = one(pad("#", 4));
    let c = with_line(c, pad("path", 48));
    let c = with_line(c, align("size", 12));
    let c = with_line(c, align("prog", 7));
    let c = with_line(c, align("pri", 4));
    assert(texts(c@) =~= seq![
        padded("#"@, 4),
        padded("path"@, 48),
        aligned("size"@, 12),
        aligned("prog"@, 7),
        aligned("pri"@, 4),
    ]);
    let mut out = one(join_with(&c, " "));
    out = with_line(out, repeat_char('\u{2500}', 80));
    let ghost all = file_lines(files@, texts(shares@));
    let mut i: usize = 0;
    assert(texts(out@) =~= all.take(2));
    while i < files.len()
        invariant
            i <= files@.len(),
            shares@.len() == files@.len(),
            all == file_lines(files@, texts(shares@)),
            texts(out@) == all.take(i + 2),
        decreases files@.len() - i,
    {
        let f = &files[i];
        let index = decimal_u64(f.index as u64);
        let path = truncate_to_width(f.path.as_str(), 47);
        let size = format_bytes(f.size);
        let share = align(shares[i].as_str(), 6);
        let priority = decimal_u64(f.priority as u64);
        let c = one(pad(index.as_str(), 4));
        let c = with_line(c, pad(path.as_str(), 48));
        let c = with_line(c, align(size.as_str(), 12));
        let c = with_line(c, concat2(share.as_str(), "%"));
        let c = with_line(c, align(priority.as_str(), 4));
        assert(texts(c@) =~= seq![
            padded(decimal(f.index as int), 4),
            padded(truncated(f.path@, 47), 48),
            aligned(byte_text(f.size as u64, true), 12),
            aligned(shares@[i as int]@, 6) + "%"@,
            aligned(decimal(f.priority as int), 4),
        ]);
        let line = join_with(&c, " ");
        assert(all[i + 2] == line@);
        out = with_line(out, line);
        assert(texts(out@) =~= all.take(i + 3));
        i = i + 1;
    }
    assert(texts(out@) =~= all);
    out
}

/// The word for the state of a tracker.
pub open spec fn tracker_state(t: TrackerInfo) -> Seq<char> {
    if t.updating {
        "upd"@
    } else if t.fails > 0 {
        "err"@
    } else {
        "ok"@
    }
}

/// The lines of one tracker: its message stands below it.
pub open spec fn tracker_entry(t: TrackerInfo) -> Seq<Seq<char>> {
    let line = row(
        seq![
            padded(decimal(t.tier as int), 4),
            padded(truncated(t.url@, 59), 60),
            aligned(decimal(t.fails as int), 5),
            aligned(tracker_state(t), 5),
        ],
    );
    if t.message@.len() > 0 {
        seq![line, "     "@ + t.message@]
    } else {
        seq![line]
    }
}

/// The lines of the first `n` trackers.
pub open spec fn tracker_entries(trackers: Seq<TrackerInfo>, n: int) -> Seq<Seq<char>>
    decreases n,
{
    if n <= 0 {
        Seq::empty()
    } else {
        tracker_entries(trackers, n - 1) + tracker_entry(trackers[n - 1])
    }
}

/// The heading of the list of trackers.
pub open spec fn tracker_heading() -> Seq<char> {
    row(seq![padded("tier"@, 4), padded("url"@, 60), aligned("fails"@, 5), aligned("state"@, 5)])
}

/// The list of trackers.
pub open spec fn tracker_lines(trackers: Seq<TrackerInfo>) -> Seq<Seq<char>> {
    seq![tracker_heading(), rule(80)] + tracker_entries(trackers, trackers.len() as int)
}

/// The list of trackers.
pub fn list_trackers(trackers: &Vec<TrackerInfo>) -> (r: Vec<String>)
    ensures
        texts(r@) == tracker_lines(trackers@),
{
    let c = one(pad("tier", 4));
    let c = with_line(c, pad("url", 60));
    let c = with_line(c, align("fails", 5));
    let c = with_line(c, align("state", 5));
    assert(texts(c@) =~= seq![
        padded("tier"@, 4),
        padded("url"@, 60),
        aligned("fails"@, 5),
        aligned("state"@, 5),
    ]);
    let mut out = one(join_with(&c, " "));
    out = with_line(out, repeat_char('\u{2500}', 80));
    let ghost head = texts(out@);
    let mut i: usize = 0;
    assert(texts(out@) =~= head + tracker_entries(trackers@, 0));
    while i < trackers.len()
        invariant
            i <= trackers@.len(),
            texts(out@) == head + tracker_entries(trackers@, i as int),
        decreases trackers@.len() - i,
    {
        let t = &trackers[i];
        let tier = decimal_i64(t.tier as i64);
        let url = truncate_to_width(t.url.as_str(), 59);
        let fails = decimal_i64(t.fails as i64);
        let state = if t.updating {
            "upd"
        } else if t.fails > 0 {
            "err"
        } else {
            "ok"
        };
        let c = one(pad(tier.as_str(), 4));
        let c = with_line(c, pad(url.as_str(), 60));
        let c = with_line(c, align(fails.as_str(), 5));
        let c = with_line(c, align(state, 5));
        assert(texts(c@) =~= seq![
            padded(decimal(t.tier as int), 4),
            padded(truncated(t.url@, 59), 60),
            aligned(decimal(t.fails as int), 5),
            aligned(tracker_state(*t), 5),
        ]);
        out = with_line(out, join_with(&c, " "));
        if !is_empty(t.message.as_str()) {
            out = with_line(out, concat2("     ", t.message.as_str()));
        }
        assert(texts(out@) =~= head + tracker_entries(trackers@, i + 1));
        i = i + 1;
    }
    assert(texts(out@) =~= tracker_lines(trackers@));
    out
}

/// The line of one peer; `share` is its progress as it is shown.
pub open spec fn peer_line(p: PeerInfo, share: Seq<char>) -> Seq<char> {
    row(
        seq![
            padded(truncated(p.ip@ + ":"@ + decimal(p.port as int), 23), 24),
            aligned(rate_text(p.download_rate), 12),
            aligned(rate_text(p.upload_rate), 12),
            padded(truncated(p.client@, 21), 22),
            aligned(share, 5) + "%"@,
        ],
    )
}

/// The heading of the list of peers.
pub open spec fn peer_heading() -> Seq<char> {
    row(
        seq![
            padded("ip:port"@, 24),
            aligned("down"@, 12),
            aligned("up"@, 12),
            padded("client"@, 22),
            aligned("prog"@, 6),
        ],
    )
}

/// The list of peers.
pub open spec fn peer_lines(peers: Seq<PeerInfo>, shares: Seq<Seq<char>>) -> Seq<Seq<char>> {
    seq![peer_heading(), rule(80)] + Seq::new(peers.len(), |i: int| peer_line(peers[i], shares[i]))
}

/// The list of peers.
pub fn list_peers(peers: &Vec<PeerInfo>, shares: &Vec<String>) -> (r: Vec<String>)
    requires
        shares@.len() == peers@.len(),
    ensures
        texts(r@) == peer_lines(peers@, texts(shares@)),
{
    let c = one(pad("ip:port", 24));
    let c = with_line(c, align("down", 12));
    let c = with_line(c, align("up", 12));
    let c = with_line(c, pad("client", 22));
    let c = with_line(c, align("prog", 6));
    assert(texts(c@) =~= seq![
        padded("ip:port"@, 24),
        aligned("down"@, 12),
        aligned("up"@, 12),
        padded("client"@, 22),
        aligned("prog"@, 6),
    ]);
    let mut out = one(join_with(&c, " "));
    out = with_line(out, repeat_char('\u{2500}', 80));
    let ghost all = peer_lines(peers@, texts(shares@));
    let mut i: usize = 0;
    assert(texts(out@) =~= all.take(2));
    while i < peers.len()
        invariant
            i <= peers@.len(),
            shares@.len() == peers@.len(),
            all == peer_lines(peers@, texts(shares@)),
            texts(out@) == all.take(i + 2),
        decreases peers@.len() - i,
    {
        let p = &peers[i];
        let port = decimal_i64(p.port as i64);
        let address = concat3(p.ip.as_str(), ":", port.as_str());
        let place = truncate_to_width(address.as_str(), 23);
        let down = format_rate(p.download_rate);
        let up = format_rate(p.upload_rate);
        let client = truncate_to_width(p.client.as_str(), 21);
        let share = align(shares[i].as_str(), 5);
        let c = one(pad(place.as_str(), 24));
        let c = with_line(c, align(down.as_str(), 12));
        let c = with_line(c, align(up.as_str(), 12));
        let c = with_line(c, pad(client.as_str(), 22));
        let c = with_line(c, concat2(share.as_str(), "%"));
        assert(texts(c@) =~= seq![
            padded(truncated(p.ip@ + ":"@ + decimal(p.port as int), 23), 24),
            aligned(rate_text(p.download_rate), 12),
            aligned(rate_text(p.upload_rate), 12),
            padded(truncated(p.client@, 21), 22),
            aligned(shares@[i as int]@, 5) + "%"@,
        ]);
        let line = join_with(&c, " ");
        assert(all[i + 2] == line@);
        out = with_line(out, line);
        assert(texts(out@) =~= all.take(i + 3));
        i = i + 1;
    }
    assert(texts(out@) =~= all);
    out
}

// ----- one torrent in detail -----

/// A line of a name and a value.
pub open spec fn entry(name: Seq<char>, value: Seq<char>) -> Seq<char> {
    name + value
}

/// Of how many, and of how many in all.
pub open spec fn of_total(part: int, whole: int) -> Seq<char> {
    decimal(part) + " connected / "@ + decimal(whole) + " total"@
}

/// An error worth telling.
pub open spec fn is_error(error: Seq<char>) -> bool {
    error.len() > 0 && error != "No error"@
}

/// What is printed of one torrent before its files. `bar` is its progress as it is shown.
pub open spec fn summary_lines(info: TorrentInfo, bar: Seq<char>) -> Seq<Seq<char>> {
    let always = seq![
        "name:          "@ + info.name@,
        "hash:          "@ + info.info_hash@,
        "state:         "@ + info.state@,
        "save path:     "@ + info.save_path@,
        "progress:      "@ + bar,
        "downloaded:    "@ + (byte_text(info.total_download as u64, true) + " ("@ + rate_text(
            info.download_rate,
        ) + ")"@),
        "uploaded:      "@ + (byte_text(info.total_upload as u64, true) + " ("@ + rate_text(
            info.upload_rate,
        ) + ")"@),
        "peers:         "@ + of_total(info.connected_peers as int, info.total_peers as int),
        "seeds:         "@ + of_total(info.connected_seeds as int, info.total_seeds as int),
        "pieces:        "@ + (decimal(info.num_completed_pieces as int) + "/"@ + decimal(
            info.num_pieces as int,
        )),
        "added:         "@ + shown_time(info.added_time),
    ];
    let done = if info.completed_time > 0 {
        seq!["completed:     "@ + shown_time(info.completed_time)]
    } else {
        Seq::empty()
    };
    let fault = if is_error(info.error@) {
        seq!["error:         "@ + info.error@]
    } else {
        Seq::empty()
    };
    always + done + fault
}

/// Of how many, and of how many in all.
fn write_of_total(part: i64, whole: i64) -> (r: String)
    ensures
        r@ == of_total(part as int, whole as int),
{
    let a = decimal_i64(part);
    let b = decimal_i64(whole);
    concat4(a.as_str(), " connected / ", b.as_str(), " total")
}

/// What is printed of one torrent before its files.
#[verifier::rlimit(40)]
pub fn summarise(info: &TorrentInfo, bar: &str) -> (r: Vec<String>)
    ensures
        texts(r@) == summary_lines(*info, bar@),
{
    let down_total = format_bytes(info.total_download);
    let down_rate = format_rate(info.download_rate);
    let up_total = format_bytes(info.total_upload);
    let up_rate = format_rate(info.upload_rate);
    let down = concat4(down_total.as_str(), " (", down_rate.as_str(), ")");
    let up = concat4(up_total.as_str(), " (", up_rate.as_str(), ")");
    let peers = write_of_total(info.connected_peers, info.total_peers);
    let seeds = write_of_total(info.connected_seeds, info.total_seeds);
    let have = decimal_i64(info.num_completed_pieces as i64);
    let all = decimal_i64(info.num_pieces as i64);
    let pieces = concat3(have.as_str(), "/", all.as_str());
    let added = format_timestamp(info.added_time);
    let out = one(concat2("name:          ", info.name.as_str()));
    let out = with_line(out, concat2("hash:          ", info.info_hash.as_str()));
    let out = with_line(out, concat2("state:         ", info.state.as_str()));
    let out = with_line(out, concat2("save path:     ", info.save_path.as_str()));
    let out = with_line(out, concat2("progress:      ", bar));
    let out = with_line(out, concat2("downloaded:    ", down.as_str()));
    let out = with_line(out, concat2("uploaded:      ", up.as_str()));
    let out = with_line(out, concat2("peers:         ", peers.as_str()));
    let out = with_line(out, concat2("seeds:         ", seeds.as_str()));
    let out = with_line(out, concat2("pieces:        ", pieces.as_str()));
    let mut out = with_line(out, concat2("added:         ", added.as_str()));
    let ghost always = texts(out@);
    if info.completed_time > 0 {
        let done = format_timestamp(info.completed_time);
        out = with_line(out, concat2("completed:     ", done.as_str()));
    }
    if !is_empty(info.error.as_str()) && !same(info.error.as_str(), "No error") {
        out = with_line(out, concat2("error:         ", info.error.as_str()));
    }
    assert(texts(out@) =~= summary_lines(*info, bar@));
    out
}

/// A part of the details under its name, left out where it is empty.
pub open spec fn section(name: Seq<char>, size: int, lines: Seq<Seq<char>>) -> Seq<Seq<char>> {
    if size > 0 {
        seq![Seq::empty(), name] + lines
    } else {
        Seq::empty()
    }
}

/// What is printed of one torrent.
pub open spec fn detail_lines(
    detail: TorrentDetail,
    bar: Seq<char>,
    file_shares: Seq<Seq<char>>,
    peer_shares: Seq<Seq<char>>,
) -> Seq<Seq<char>> {
    summary_lines(detail.info, bar) + section(
        "files:"@,
        detail.files@.len() as int,
        file_lines(detail.files@, file_shares),
    ) + section("trackers:"@, detail.trackers@.len() as int, tracker_lines(detail.trackers@))
        + section(
        "peers:"@,
        detail.peers@.len() as int,
        peer_lines(detail.peers@, peer_shares),
    )
}

/// A part of the details under its name, left out where it is empty.
fn with_section(lines: Vec<String>, name: &str, size: usize, part: Vec<String>) -> (r: Vec<String>)
    ensures
        texts(r@) == texts(lines@) + section(name@, size as int, texts(part@)),
{
    if size == 0 {
        assert(texts(lines@) =~= texts(lines@) + section(name@, 0, texts(part@)));
        return lines;
    }
    let blank = String::new();
    assert(blank@ =~= Seq::<char>::empty());
    let out = with_line(lines, blank);
    let out = with_line(out, name.to_owned());
    let out = with_lines(out, part);
    assert(texts(out@) =~= texts(lines@) + section(name@, size as int, texts(part@)));
    out
}

/// What is printed of one torrent.
pub fn list_detail(
    detail: &TorrentDetail,
    bar: &str,
    file_shares: &Vec<String>,
    peer_shares: &Vec<String>,
) -> (r: Vec<String>)
    requires
        file_shares@.len() == detail.files@.len(),
        peer_shares@.len() == detail.peers@.len(),
    ensures
        texts(r@) == detail_lines(*detail, bar@, texts(file_shares@), texts(peer_shares@)),
{
    let out = summarise(&detail.info, bar);
    let out = with_section(
        out,
        "files:",
        detail.files.len(),
        list_files(&detail.files, file_shares),
    );
    let out = with_section(out, "trackers:", detail.trackers.len(), list_trackers(&detail.trackers));
    with_section(out, "peers:", detail.peers.len(), list_peers(&detail.peers, peer_shares))
}

// ----- the rest -----

/// What is printed of the session.
pub open spec fn stats_lines(s: StatsInfo) -> Seq<Seq<char>> {
    seq![
        "torrents:     "@ + (decimal(s.active_torrents as int) + " active / "@ + decimal(
            s.paused_torrents as int,
        ) + (" paused / "@ + decimal(s.num_torrents as int) + " total"@)),
        "download:     "@ + rate_text(s.download_rate),
        "upload:       "@ + rate_text(s.upload_rate),
        "total down:   "@ + byte_text(s.total_download as u64, true),
        "total up:     "@ + byte_text(s.total_upload as u64, true),
        "dht nodes:    "@ + decimal(s.total_dht_nodes as int),
        "peers:        "@ + decimal(s.num_peers as int),
    ]
}

/// What is printed of the session.
pub fn list_stats(s: &StatsInfo) -> (r: Vec<String>)
    ensures
        texts(r@) == stats_lines(*s),
{
    let active = decimal_i64(s.active_torrents as i64);
    let paused = decimal_i64(s.paused_torrents as i64);
    let total = decimal_i64(s.num_torrents as i64);
    let tail = concat3(" paused / ", total.as_str(), " total");
    let counts = concat4(active.as_str(), " active / ", paused.as_str(), tail.as_str());
    let down = format_rate(s.download_rate);
    let up = format_rate(s.upload_rate);
    let all_down = format_bytes(s.total_download);
    let all_up = format_bytes(s.total_upload);
    let nodes = decimal_i64(s.total_dht_nodes);
    let peers = decimal_i64(s.num_peers as i64);
    let out = one(concat2("torrents:     ", counts.as_str()));
    let out = with_line(out, concat2("download:     ", down.as_str()));
    let out = with_line(out, concat2("upload:       ", up.as_str()));
    let out = with_line(out, concat2("total down:   ", all_down.as_str()));
    let out = with_line(out, concat2("total up:     ", all_up.as_str()));
    let out = with_line(out, concat2("dht nodes:    ", nodes.as_str()));
    let out = with_line(out, concat2("peers:        ", peers.as_str()));
    assert(texts(out@) =~= stats_lines(*s));
    out
}

/// The line of one category.
pub open spec fn category_line(c: CategoryInfo) -> Seq<char> {
    row(
        seq![
            padded(truncated(c.name@, 15), 16),
            padded(truncated(c.save_path@, 47), 48),
            aligned(decimal(c.torrent_count as int), 6),
            join(texts(c.add_tags@), ","@),
        ],
    )
}

/// The heading of the list of categories.
pub open spec fn category_heading() -> Seq<char> {
    row(seq![padded("name"@, 16), padded("save path"@, 48), aligned("count"@, 6), "tags"@])
}

/// The list of categories.
pub open spec fn category_lines(list: Seq<CategoryInfo>) -> Seq<Seq<char>> {
    if list.len() == 0 {
        seq!["no categories configured (use `rustor category set <name> <path>`)"@]
    } else {
        seq![category_heading(), rule(80)] + Seq::new(list.len(), |i: int| category_line(list[i]))
    }
}

/// The list of categories.
pub fn list_categories(list: &Vec<CategoryInfo>) -> (r: Vec<String>)
    ensures
        texts(r@) == category_lines(list@),
{
    if list.len() == 0 {
        return one(
            "no categories configured (use `rustor category set <name> <path>`)".to_owned(),
        );
    }
    let c = one(pad("name", 16));
    let c = with_line(c, pad("save path", 48));
    let c = with_line(c, align("count", 6));
    let c = with_line(c, "tags".to_owned());
    assert(texts(c@) =~= seq![
        padded("name"@, 16),
        padded("save path"@, 48),
        aligned("count"@, 6),
        "tags"@,
    ]);
    let mut out = one(join_with(&c, " "));
    out = with_line(out, repeat_char('\u{2500}', 80));
    let ghost all = category_lines(list@);
    let mut i: usize = 0;
    assert(texts(out@) =~= all.take(2));
    while i < list.len()
        invariant
            i <= list@.len(),
            list@.len() > 0,
            all == category_lines(list@),
            texts(out@) == all.take(i + 2),
        decreases list@.len() - i,
    {
        let e = &list[i];
        let name = truncate_to_width(e.name.as_str(), 15);
        let path = truncate_to_width(e.save_path.as_str(), 47);
        let count = decimal_u64(e.torrent_count as u64);
        let c = one(pad(name.as_str(), 16));
        let c = with_line(c, pad(path.as_str(), 48));
        let c = with_line(c, align(count.as_str(), 6));
        let c = with_line(c, join_with(&e.add_tags, ","));
        assert(texts(c@) =~= seq![
            padded(truncated(e.name@, 15), 16),
            padded(truncated(e.save_path@, 47), 48),
            aligned(decimal(e.torrent_count as int), 6),
            join(texts(e.add_tags@), ","@),
        ]);
        let line = join_with(&c, " ");
        assert(all[i + 2] == line@);
        out = with_line(out, line);
        assert(texts(out@) =~= all.take(i + 3));
        i = i + 1;
    }
    assert(texts(out@) =~= all);
    out
}

/// What is printed of a rename, and whether it goes to the error output.
pub struct RenameReport {
    pub error: bool,
    pub lines: Vec<String>,
}

/// What is printed of a rename.
pub open spec fn rename_lines(renamed: Seq<usize>, rejected: Seq<(usize, String)>) -> Seq<
    Seq<char>,
> {
    if rejected.len() > 0 {
        seq!["rename rejected \u{2014} no files were renamed:"@] + Seq::new(
            rejected.len(),
            |i: int| "  file "@ + decimal(rejected[i].0 as int) + ": "@ + rejected[i].1@,
        )
    } else if renamed.len() == 0 {
        seq!["nothing to rename"@]
    } else {
        seq!["submitted rename for "@ + decimal(renamed.len() as int) + " file(s):"@] + Seq::new(
            renamed.len(),
            |i: int| "  file "@ + decimal(renamed[i] as int),
        ) + seq![
            "(libtorrent applies renames asynchronously; check daemon logs for final outcome)"@,
        ]
    }
}

/// What is printed of a rename; a rejected one goes to the error output.
pub fn report_rename(renamed: &Vec<usize>, rejected: &Vec<(usize, String)>) -> (r: RenameReport)
    ensures
        r.error == (rejected@.len() > 0),
        texts(r.lines@) == rename_lines(renamed@, rejected@),
{
    let ghost all = rename_lines(renamed@, rejected@);
    if rejected.len() > 0 {
        let mut out = one("rename rejected \u{2014} no files were renamed:".to_owned());
        let mut i: usize = 0;
        assert(texts(out@) =~= all.take(1));
        while i < rejected.len()
            invariant
                i <= rejected@.len(),
                rejected@.len() > 0,
                all == rename_lines(renamed@, rejected@),
                texts(out@) == all.take(i + 1),
            decreases rejected@.len() - i,
        {
            let file = decimal_u64(rejected[i].0 as u64);
            let line = concat4("  file ", file.as_str(), ": ", rejected[i].1.as_str());
            assert(all[i + 1] == line@);
            out = with_line(out, line);
            assert(texts(out@) =~= all.take(i + 2));
            i = i + 1;
        }
        assert(texts(out@) =~= all);
        return RenameReport { error: true, lines: out };
    }
    if renamed.len() == 0 {
        return RenameReport { error: false, lines: one("nothing to rename".to_owned()) };
    }
    let count = decimal_u64(renamed.len() as u64);
    let mut out = one(concat3("submitted rename for ", count.as_str(), " file(s):"));
    let mut i: usize = 0;
    assert(texts(out@) =~= all.take(1));
    while i < renamed.len()
        invariant
            i <= renamed@.len(),
            renamed@.len() > 0,
            rejected@.len() == 0,
            all == rename_lines(renamed@, rejected@),
            texts(out@) == all.take(i + 1),
        decreases renamed@.len() - i,
    {
        let file = decimal_u64(renamed[i] as u64);
        let line = concat2("  file ", file.as_str());
        assert(all[i + 1] == line@);
        out = with_line(out, line);
        assert(texts(out@) =~= all.take(i + 2));
        i = i + 1;
    }
    out = with_line(
        out,
        "(libtorrent applies renames asynchronously; check daemon logs for final outcome)".to_owned(),
    );
    assert(texts(out@) =~= all);
    RenameReport { error: false, lines: out }
}

/// The progress of what an answer tells of, as it is shown.
#[derive(Debug, Clone, PartialEq, Eq)]
pub struct Shares {
    /// of each torrent of a list
    pub torrents: Vec<String>,
    /// of a torrent in detail, with its bar
    pub bar: String,
    /// of each of its files
    pub files: Vec<String>,
    /// of each of its peers
    pub peers: Vec<String>,
}

/// What is printed for an answer.
#[derive(Debug, Clone, PartialEq, Eq)]
pub struct Report {
    /// whether it goes to the error output
    pub error: bool,
    /// whether a line feed follows each line
    pub feed: bool,
    pub lines: Vec<String>,
}

/// The shares fit the answer.
pub open spec fn shares_fit(response: Response, shares: Shares) -> bool {
    match response {
        Response::TorrentList(list) => shares.torrents@.len() == list@.len(),
        Response::TorrentDetail(detail) => shares.files@.len() == detail.files@.len()
            && shares.peers@.len() == detail.peers@.len(),
        _ => true,
    }
}

/// What is printed for an answer.
pub open spec fn report_of(response: Response, shares: Shares) -> (bool, bool, Seq<Seq<char>>) {
    match response {
        Response::TorrentList(list) => (false, true, torrent_lines(list@, texts(shares.torrents@))),
        Response::TorrentDetail(detail) => (
            false,
            true,
            detail_lines(*detail, shares.bar@, texts(shares.files@), texts(shares.peers@)),
        ),
        Response::Added { id } => (false, true, seq!["added: "@ + id@]),
        Response::Stats(stats) => (false, true, stats_lines(stats)),
        Response::Config(text) => (false, false, seq![text@]),
        Response::RenameResult { renamed, rejected } => (
            rejected@.len() > 0,
            true,
            rename_lines(renamed@, rejected@),
        ),
        Response::Magnet(uri) => if uri@.len() == 0 {
            (true, true, seq!["magnet: torrent invalid or metadata not yet downloaded"@])
        } else {
            (false, true, seq![uri@])
        },
        Response::Categories(list) => (false, true, category_lines(list@)),
        Response::Feeds(list) => (
            false,
            true,
            Seq::new(
                list@.len(),
                |i: int| decimal(list@[i].index as int) + ": "@ + list@[i].url@,
            ),
        ),
        Response::Done => (false, true, Seq::empty()),
        Response::Failed(message) => (true, true, seq!["error: "@ + message@]),
    }
}

/// The subscriptions, one on a line.
fn list_feeds(list: &Vec<FeedInfo>) -> (r: Vec<String>)
    ensures
        texts(r@) == Seq::new(
            list@.len(),
            |i: int| decimal(list@[i].index as int) + ": "@ + list@[i].url@,
        ),
{
    let mut out: Vec<String> = Vec::new();
    let mut i: usize = 0;
    while i < list.len()
        invariant
            i <= list@.len(),
            out@.len() == i,
            forall|j: int|
                0 <= j < i ==> (#[trigger] out@[j])@ == decimal(list@[j].index as int) + ": "@
                    + list@[j].url@,
        decreases list@.len() - i,
    {
        let index = decimal_u64(list[i].index as u64);
        out.push(concat3(index.as_str(), ": ", list[i].url.as_str()));
        i = i + 1;
    }
    assert(texts(out@) =~= Seq::new(
        list@.len(),
        |i: int| decimal(list@[i].index as int) + ": "@ + list@[i].url@,
    ));
    out
}

/// What is printed for an answer.
pub fn report_response(response: &Response, shares: &Shares) -> (r: Report)
    requires
        shares_fit(*response, *shares),
    ensures
        (r.error, r.feed, texts(r.lines@)) == report_of(*response, *shares),
{
    match response {
        Response::TorrentList(list) => Report {
            error: false,
            feed: true,
            lines: list_torrents(list, &shares.torrents),
        },
        Response::TorrentDetail(detail) => Report {
            error: false,
            feed: true,
            lines: list_detail(detail, shares.bar.as_str(), &shares.files, &shares.peers),
        },
        Response::Added { id } => Report {
            error: false,
            feed: true,
            lines: one(concat2("added: ", id.as_str())),
        },
        Response::Stats(stats) => Report { error: false, feed: true, lines: list_stats(stats) },
        Response::Config(text) => Report { error: false, feed: false, lines: one(text.clone()) },
        Response::RenameResult { renamed, rejected } => {
            let report = report_rename(renamed, rejected);
            Report { error: report.error, feed: true, lines: report.lines }
        },
        Response::Magnet(uri) => {
            if is_empty(uri.as_str()) {
                Report {
                    error: true,
                    feed: true,
                    lines: one(
                        "magnet: torrent invalid or metadata not yet downloaded".to_owned(),
                    ),
                }
            } else {
                Report { error: false, feed: true, lines: one(uri.clone()) }
            }
        },
        Response::Categories(list) => Report {
            error: false,
            feed: true,
            lines: list_categories(list),
        },
        Response::Feeds(list) => Report { error: false, feed: true, lines: list_feeds(list) },
        Response::Done => {
            let lines: Vec<String> = Vec::new();
            assert(texts(lines@) =~= Seq::<Seq<char>>::empty());
            Report { error: false, feed: true, lines }
        },
        Response::Failed(message) => Report {
            error: true,
            feed: true,
            lines: one(concat2("error: ", message.as_str())),
        },
    }
}

} // verus!
