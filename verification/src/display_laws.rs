//! What is printed and shown of torrents.

use crate::display::{
    aligned, bar_text, byte_text, cells, cells_of, fitting, lemma_cells, padded, rate_text,
    repeated, shown_time, state_code, time_text, truncated,
};
use crate::ipc::{
    CategoryInfo, FileInfo, PeerInfo, Response, StatsInfo, TorrentDetail, TorrentInfo, TrackerInfo,
};
use crate::listing::{
    category_line, category_lines, detail_lines, file_line, file_lines, peer_line, peer_lines,
    rename_lines, report_of, row, stats_lines, summary_lines, torrent_line, torrent_lines,
    tracker_entries, tracker_entry, tracker_lines, Shares,
};
use crate::text::{decimal, join, texts};
use vstd::prelude::*;

verus! {

// ----- texts that must fit -----

/// How much of a text fits.
proof fn lemma_fitting(s: Seq<char>, budget: int)
    requires
        budget >= 0,
    ensures
        0 <= fitting(s, budget) <= s.len(),
        cells(s.take(fitting(s, budget))) <= budget,
        fitting(s, budget) < s.len() ==> cells(s.take(fitting(s, budget) + 1)) > budget,
    decreases s.len(),
{
    reveal_with_fuel(cells, 2);
    if s.len() == 0 || cells_of(s[0]) > budget {
        assert(s.take(0) =~= Seq::<char>::empty());
        if s.len() > 0 {
            assert(s.take(1).drop_last() =~= Seq::<char>::empty());
            assert(s.take(1).last() == s[0]);
        }
    } else {
        let rest = s.skip(1);
        let k = fitting(rest, budget - cells_of(s[0]));
        lemma_fitting(rest, budget - cells_of(s[0]));
        assert(s.take(k + 1) =~= seq![s[0]] + rest.take(k));
        lemma_cells(seq![s[0]], rest.take(k));
        assert(seq![s[0]].drop_last() =~= Seq::<char>::empty());
        assert(cells(seq![s[0]]) == cells_of(s[0]));
        if k < rest.len() {
            assert(s.take(k + 2) =~= seq![s[0]] + rest.take(k + 1));
            lemma_cells(seq![s[0]], rest.take(k + 1));
        }
    }
}

/// A text that fits is shown whole. One that does not is cut so that it fits with an ellipsis
/// behind it, and no character more would.
pub proof fn law_cut_texts_fit(s: Seq<char>, width: int)
    requires
        width > 0,
        cells_of('\u{2026}') == 1,
    ensures
        cells(s) <= width ==> truncated(s, width) == s,
        cells(truncated(s, width)) <= width,
        cells(s) > width ==> exists|k: int|
            0 <= k < s.len() && truncated(s, width) == (#[trigger] s.take(k)).push('\u{2026}')
                && cells(s.take(k + 1)) >= width,
{
    if cells(s) > width {
        lemma_fitting(s, width - 1);
        let k = fitting(s, width - 1);
        let kept = s.take(k);
        assert(kept.push('\u{2026}').drop_last() =~= kept);
        if k == s.len() {
            assert(s.take(k) =~= s);
        }
    }
}

/// A cell of a table begins or ends with its text, and the rest of it is blank.
pub proof fn law_cells_hold_their_text(s: Seq<char>, width: int)
    ensures
        padded(s, width).take(s.len() as int) == s,
        forall|i: int| s.len() <= i < padded(s, width).len() ==> #[trigger] padded(s, width)[i] == ' ',
        aligned(s, width).skip(aligned(s, width).len() - s.len()) == s,
        forall|i: int|
            0 <= i < aligned(s, width).len() - s.len() ==> #[trigger] aligned(s, width)[i] == ' ',
        s.len() < width ==> padded(s, width).len() == width && aligned(s, width).len() == width,
{
    assert(padded(s, width).take(s.len() as int) =~= s);
    assert(aligned(s, width).skip(aligned(s, width).len() - s.len()) =~= s);
}

/// A bar has as many full cells as the share asks for, empty ones up to its width, and the share
/// before it.
pub proof fn law_bars_show_their_share(percent: Seq<char>, full: int, width: int)
    requires
        0 <= full <= width,
    ensures
        bar_text(percent, full, width) == percent + "% ["@ + repeated('\u{2588}', full) + repeated(
            '\u{2591}',
            width - full,
        ) + "]"@,
        bar_text(percent, width + 1, width) == bar_text(percent, width, width),
{
    assert(percent + "% ["@ + (repeated('\u{2588}', full) + repeated('\u{2591}', width - full))
        + "]"@ =~= percent + "% ["@ + repeated('\u{2588}', full) + repeated(
        '\u{2591}',
        width - full,
    ) + "]"@);
}

/// No rate is shown as none, and any other in bytes per second.
pub proof fn law_rates_are_per_second(rate: i64)
    ensures
        rate_text(0) == "0 B/s"@,
        rate > 0 ==> rate_text(rate) == byte_text(rate as u64, true) + "/s"@,
{
}

/// A time is shown with its date, or as unknown where there is none.
pub proof fn law_times_are_shown(seconds: i64)
    ensures
        shown_time(0) == "N/A"@,
        seconds != 0 ==> (match time_text(seconds, "%Y-%m-%d %H:%M:%S"@) {
            Some(text) => shown_time(seconds) == text,
            None => shown_time(seconds) == "N/A"@,
        }),
{
}

/// Each known state has two letters of its own.
pub proof fn law_states_have_their_letters(other: Seq<char>)
    ensures
        state_code("downloading"@) == "DL"@,
        state_code("seeding"@) == "SE"@,
        state_code("finished"@) == "FN"@,
        state_code("downloading_metadata"@) == "MD"@,
        state_code("checking_files"@) == "CK"@,
        state_code("checking_resume_data"@) == "CR"@,
        state_code("allocating"@) == "AL"@,
        state_code(other).len() <= 2,
{
    reveal_strlit("downloading");
    reveal_strlit("seeding");
    reveal_strlit("finished");
    reveal_strlit("downloading_metadata");
    reveal_strlit("checking_files");
    reveal_strlit("checking_resume_data");
    reveal_strlit("allocating");
    reveal_strlit("DL");
    reveal_strlit("SE");
    reveal_strlit("FN");
    reveal_strlit("MD");
    reveal_strlit("CK");
    reveal_strlit("CR");
    reveal_strlit("AL");
    assert("downloading"@.len() == 11 && "seeding"@.len() == 7 && "finished"@.len() == 8);
    assert("downloading_metadata"@.len() == 20 && "checking_files"@.len() == 14);
    assert("checking_resume_data"@.len() == 20 && "allocating"@.len() == 10);
    assert("downloading_metadata"@[0] == 'd' && "checking_resume_data"@[0] == 'c');
}

// ----- lines of tables -----

/// What stands in a row of up to eight cells.
proof fn lemma_row(c: Seq<Seq<char>>)
    ensures
        c.len() == 4 ==> row(c) == c[0] + " "@ + c[1] + " "@ + c[2] + " "@ + c[3],
        c.len() == 5 ==> row(c) == c[0] + " "@ + c[1] + " "@ + c[2] + " "@ + c[3] + " "@ + c[4],
        c.len() == 8 ==> row(c) == c[0] + " "@ + c[1] + " "@ + c[2] + " "@ + c[3] + " "@ + c[4]
            + " "@ + c[5] + " "@ + c[6] + " "@ + c[7],
{
    reveal_with_fuel(join, 9);
}

/// The line of a torrent tells its position, its name, its state, its progress, both rates, its
/// peers and its seeds, in this order.
pub proof fn law_torrent_lines_tell(t: TorrentInfo, share: Seq<char>)
    ensures
        torrent_line(t, share) == padded(decimal(t.index as int), 4) + " "@ + padded(
            truncated(t.name@, 31),
            32,
        ) + " "@ + padded(state_code(t.state@), 4) + " "@ + aligned(share, 7) + " "@ + aligned(
            rate_text(t.download_rate),
            12,
        ) + " "@ + aligned(rate_text(t.upload_rate), 12) + " "@ + (decimal(t.connected_peers as int)
            + "/"@ + decimal(t.total_peers as int)) + " "@ + ("S:"@ + decimal(
            t.connected_seeds as int,
        )),
{
    let c = seq![
        padded(decimal(t.index as int), 4),
        padded(truncated(t.name@, 31), 32),
        padded(state_code(t.state@), 4),
        aligned(share, 7),
        aligned(rate_text(t.download_rate), 12),
        aligned(rate_text(t.upload_rate), 12),
        decimal(t.connected_peers as int) + "/"@ + decimal(t.total_peers as int),
        "S:"@ + decimal(t.connected_seeds as int),
    ];
    lemma_row(c);
}

/// The line of a file tells its position, its path, its size, its progress and its priority.
pub proof fn law_file_lines_tell(f: FileInfo, share: Seq<char>)
    ensures
        file_line(f, share) == padded(decimal(f.index as int), 4) + " "@ + padded(
            truncated(f.path@, 47),
            48,
        ) + " "@ + aligned(byte_text(f.size as u64, true), 12) + " "@ + (aligned(share, 6) + "%"@)
            + " "@ + aligned(decimal(f.priority as int), 4),
{
    lemma_row(
        seq![
            padded(decimal(f.index as int), 4),
            padded(truncated(f.path@, 47), 48),
            aligned(byte_text(f.size as u64, true), 12),
            aligned(share, 6) + "%"@,
            aligned(decimal(f.priority as int), 4),
        ],
    );
}

/// The line of a peer tells its address and port, both rates, its program and its progress.
pub proof fn law_peer_lines_tell(p: PeerInfo, share: Seq<char>)
    ensures
        peer_line(p, share) == padded(
            truncated(p.ip@ + ":"@ + decimal(p.port as int), 23),
            24,
        ) + " "@ + aligned(rate_text(p.download_rate), 12) + " "@ + aligned(
            rate_text(p.upload_rate),
            12,
        ) + " "@ + padded(truncated(p.client@, 21), 22) + " "@ + (aligned(share, 5) + "%"@),
{
    lemma_row(
        seq![
            padded(truncated(p.ip@ + ":"@ + decimal(p.port as int), 23), 24),
            aligned(rate_text(p.download_rate), 12),
            aligned(rate_text(p.upload_rate), 12),
            padded(truncated(p.client@, 21), 22),
            aligned(share, 5) + "%"@,
        ],
    );
}

/// The line of a tracker tells its tier, its address, its failures and its state: at work,
/// failing or well. A message of its stands in a line below.
pub proof fn law_tracker_lines_tell(t: TrackerInfo)
    ensures
        ({
            let state = if t.updating {
                "upd"@
            } else if t.fails > 0 {
                "err"@
            } else {
                "ok"@
            };
            let line = padded(decimal(t.tier as int), 4) + " "@ + padded(truncated(t.url@, 59), 60)
                + " "@ + aligned(decimal(t.fails as int), 5) + " "@ + aligned(state, 5);
            &&& t.message@.len() == 0 ==> tracker_entry(t) == seq![line]
            &&& t.message@.len() > 0 ==> tracker_entry(t) == seq![line, "     "@ + t.message@]
        }),
{
    lemma_row(
        seq![
            padded(decimal(t.tier as int), 4),
            padded(truncated(t.url@, 59), 60),
            aligned(decimal(t.fails as int), 5),
            aligned(crate::listing::tracker_state(t), 5),
        ],
    );
}

/// The line of a category tells its name, its folder, the number of its torrents and its tags.
pub proof fn law_category_lines_tell(c: CategoryInfo)
    ensures
        category_line(c) == padded(truncated(c.name@, 15), 16) + " "@ + padded(
            truncated(c.save_path@, 47),
            48,
        ) + " "@ + aligned(decimal(c.torrent_count as int), 6) + " "@ + join(
            texts(c.add_tags@),
            ","@,
        ),
{
    lemma_row(
        seq![
            padded(truncated(c.name@, 15), 16),
            padded(truncated(c.save_path@, 47), 48),
            aligned(decimal(c.torrent_count as int), 6),
            join(texts(c.add_tags@), ","@),
        ],
    );
}

/// Every torrent, file, peer and category has its line, below the two lines of the heading.
pub proof fn law_every_entry_has_its_line(
    torrents: Seq<TorrentInfo>,
    files: Seq<FileInfo>,
    peers: Seq<PeerInfo>,
    categories: Seq<CategoryInfo>,
    shares: Seq<Seq<char>>,
    i: int,
)
    requires
        i >= 0,
    ensures
        i < torrents.len() ==> torrent_lines(torrents, shares)[i + 2] == torrent_line(
            torrents[i],
            shares[i],
        ) && torrent_lines(torrents, shares).len() == torrents.len() + 2,
        torrents.len() == 0 ==> torrent_lines(torrents, shares) == seq!["no torrents"@],
        i < files.len() ==> file_lines(files, shares)[i + 2] == file_line(files[i], shares[i])
            && file_lines(files, shares).len() == files.len() + 2,
        i < peers.len() ==> peer_lines(peers, shares)[i + 2] == peer_line(peers[i], shares[i])
            && peer_lines(peers, shares).len() == peers.len() + 2,
        i < categories.len() ==> category_lines(categories)[i + 2] == category_line(categories[i])
            && category_lines(categories).len() == categories.len() + 2,
{
}

/// Every tracker has its lines below the heading.
pub proof fn law_every_tracker_has_its_lines(trackers: Seq<TrackerInfo>, i: int, k: int)
    requires
        0 <= i < trackers.len(),
        0 <= k < tracker_entry(trackers[i]).len(),
    ensures
        tracker_lines(trackers).contains(tracker_entry(trackers[i])[k]),
{
    lemma_tracker_entries(trackers, trackers.len() as int, i, k);
    let part = tracker_entries(trackers, trackers.len() as int);
    let j = part.index_of(tracker_entry(trackers[i])[k]);
    assert(tracker_lines(trackers)[j + 2] == part[j]);
}

/// The lines of a tracker are among those of all.
proof fn lemma_tracker_entries(trackers: Seq<TrackerInfo>, n: int, i: int, k: int)
    requires
        0 <= i < n <= trackers.len(),
        0 <= k < tracker_entry(trackers[i]).len(),
    ensures
        tracker_entries(trackers, n).contains(tracker_entry(trackers[i])[k]),
    decreases n,
{
    let before = tracker_entries(trackers, n - 1);
    let all = tracker_entries(trackers, n);
    if i < n - 1 {
        lemma_tracker_entries(trackers, n - 1, i, k);
        let j = before.index_of(tracker_entry(trackers[i])[k]);
        assert(all[j] == before[j]);
    } else {
        assert(all[before.len() + k] == tracker_entry(trackers[i])[k]);
    }
}

// ----- a torrent in detail -----

/// What is printed of a torrent names what it tells.
pub proof fn law_summaries_name_what_they_tell(t: TorrentInfo, bar: Seq<char>)
    ensures
        ({
            let s = summary_lines(t, bar);
            &&& s[0] == "name:          "@ + t.name@
            &&& s[1] == "hash:          "@ + t.info_hash@
            &&& s[2] == "state:         "@ + t.state@
            &&& s[3] == "save path:     "@ + t.save_path@
            &&& s[4] == "progress:      "@ + bar
            &&& s[5] == "downloaded:    "@ + (byte_text(t.total_download as u64, true) + " ("@
                + rate_text(t.download_rate) + ")"@)
            &&& s[6] == "uploaded:      "@ + (byte_text(t.total_upload as u64, true) + " ("@
                + rate_text(t.upload_rate) + ")"@)
            &&& s[7] == "peers:         "@ + (decimal(t.connected_peers as int) + " connected / "@
                + decimal(t.total_peers as int) + " total"@)
            &&& s[8] == "seeds:         "@ + (decimal(t.connected_seeds as int) + " connected / "@
                + decimal(t.total_seeds as int) + " total"@)
            &&& s[9] == "pieces:        "@ + (decimal(t.num_completed_pieces as int) + "/"@
                + decimal(t.num_pieces as int))
            &&& s[10] == "added:         "@ + shown_time(t.added_time)
            &&& t.completed_time > 0 ==> s[11] == "completed:     "@ + shown_time(t.completed_time)
            &&& t.error@.len() > 0 && t.error@ != "No error"@ ==> s.last() == "error:         "@
                + t.error@
            &&& s.len() == 11 + (if t.completed_time > 0 {
                1int
            } else {
                0int
            }) + (if t.error@.len() > 0 && t.error@ != "No error"@ {
                1int
            } else {
                0int
            })
        }),
{
}

/// The details of a torrent begin with its summary; its files, trackers and peers follow under
/// their names, where it has any.
pub proof fn law_details_have_their_sections(
    d: TorrentDetail,
    bar: Seq<char>,
    file_shares: Seq<Seq<char>>,
    peer_shares: Seq<Seq<char>>,
)
    ensures
        ({
            let all = detail_lines(d, bar, file_shares, peer_shares);
            let top = summary_lines(d.info, bar);
            &&& all.take(top.len() as int) == top
            &&& d.files@.len() == 0 && d.trackers@.len() == 0 && d.peers@.len() == 0 ==> all == top
            &&& d.files@.len() > 0 ==> all[top.len() as int + 1] == "files:"@ && all.contains(
                file_line(d.files@[0], file_shares[0]),
            )
            &&& d.files@.len() == 0 && d.trackers@.len() > 0 ==> all[top.len() as int + 1]
                == "trackers:"@
            &&& d.files@.len() == 0 && d.trackers@.len() == 0 && d.peers@.len() > 0
                ==> all[top.len() as int + 1] == "peers:"@
            &&& d.peers@.len() > 0 ==> all.last() == peer_line(
                d.peers@[d.peers@.len() - 1],
                peer_shares[d.peers@.len() - 1],
            )
        }),
{
    let all = detail_lines(d, bar, file_shares, peer_shares);
    let top = summary_lines(d.info, bar);
    assert(all.take(top.len() as int) =~= top);
    if d.files@.len() == 0 && d.trackers@.len() == 0 && d.peers@.len() == 0 {
        assert(all =~= top);
    }
    if d.files@.len() > 0 {
        assert(all[top.len() as int + 4] == file_line(d.files@[0], file_shares[0]));
    }
}

/// The counters are printed by their names.
pub proof fn law_counters_are_named(s: StatsInfo)
    ensures
        ({
            let l = stats_lines(s);
            &&& l.len() == 7
            &&& l[0] == "torrents:     "@ + decimal(s.active_torrents as int) + " active / "@
                + decimal(s.paused_torrents as int) + " paused / "@ + decimal(s.num_torrents as int)
                + " total"@
            &&& l[1] == "download:     "@ + rate_text(s.download_rate)
            &&& l[2] == "upload:       "@ + rate_text(s.upload_rate)
            &&& l[3] == "total down:   "@ + byte_text(s.total_download as u64, true)
            &&& l[4] == "total up:     "@ + byte_text(s.total_upload as u64, true)
            &&& l[5] == "dht nodes:    "@ + decimal(s.total_dht_nodes as int)
            &&& l[6] == "peers:        "@ + decimal(s.num_peers as int)
        }),
{
    let l = stats_lines(s);
    assert(l[0] =~= "torrents:     "@ + decimal(s.active_torrents as int) + " active / "@ + decimal(
        s.paused_torrents as int,
    ) + " paused / "@ + decimal(s.num_torrents as int) + " total"@);
}

/// A rename that was rejected is told as an error with every file and its reason; one that was
/// carried out with every file.
pub proof fn law_renames_are_reported(
    renamed: Seq<usize>,
    rejected: Seq<(usize, String)>,
    i: int,
)
    ensures
        0 <= i < rejected.len() ==> rename_lines(renamed, rejected)[i + 1] == "  file "@ + decimal(
            rejected[i].0 as int,
        ) + ": "@ + rejected[i].1@,
        rejected.len() == 0 && 0 <= i < renamed.len() ==> rename_lines(renamed, rejected)[i + 1]
            == "  file "@ + decimal(renamed[i] as int),
        rejected.len() == 0 && renamed.len() > 0 ==> rename_lines(renamed, rejected)[0]
            == "submitted rename for "@ + decimal(renamed.len() as int) + " file(s):"@,
{
}

/// Only what went wrong is told as an error: a failure, a rename that was rejected and a magnet
/// link that is not known yet.
pub proof fn law_errors_are_told_as_errors(response: Response, shares: Shares)
    ensures
        report_of(response, shares).0 <==> (response is Failed || (
        response matches Response::RenameResult { rejected, .. } && rejected@.len() > 0) || (
        response matches Response::Magnet(uri) && uri@.len() == 0)),
        response matches Response::Added { id } ==> report_of(response, shares).2 == seq![
            "added: "@ + id@,
        ],
        response matches Response::Config(text) ==> report_of(response, shares).2 == seq![text@],
        response matches Response::Magnet(uri) ==> uri@.len() > 0 ==> report_of(response, shares).2
            == seq![uri@],
        response is Done ==> report_of(response, shares).2.len() == 0,
{
}

} // verus!
