//! The texts of the tables and lines of the interface.

use crate::display::{byte_text, format_bytes, format_rate, rate_text, repeat_char, repeated};
use crate::ipc::{PeerInfo, StatsInfo, TrackerInfo};
use crate::text::{
    chars_of, concat2, concat3, concat4, decimal, decimal_i64, decimal_u64, opt_text, string_of,
    texts,
};
use crate::tui::columns::{first_of, Column};
use crate::tui::main_view::{
    selected_torrent, InputPurpose, InputView, MainState, MainView, TextInput,
};
use crate::tui::mouse::Area;
use crate::tui::tree::{RowView, TreeRow};
use vstd::prelude::*;

verus! {

// ----- files -----

/// The priority of a file or folder in words.
pub open spec fn priority_text(priority: Option<u8>, mixed: bool) -> Seq<char> {
    if mixed {
        "mixed"@
    } else {
        match priority {
            None => "\u{2014}"@,
            Some(p) => if p == 0 {
                "skip"@
            } else if p <= 3 {
                "low/"@ + decimal(p as int)
            } else if p == 4 {
                "normal"@
            } else if p <= 6 {
                "high/"@ + decimal(p as int)
            } else if p == 7 {
                "max"@
            } else {
                decimal(p as int)
            },
        }
    }
}

/// The priority of a file or folder in words.
pub fn priority_label(priority: Option<u8>, is_mixed: bool) -> (r: String)
    ensures
        r@ == priority_text(priority, is_mixed),
{
    if is_mixed {
        return "mixed".to_owned();
    }
    match priority {
        None => "\u{2014}".to_owned(),
        Some(p) => {
            let number = decimal_u64(p as u64);
            if p == 0 {
                "skip".to_owned()
            } else if p <= 3 {
                concat2("low/", number.as_str())
            } else if p == 4 {
                "normal".to_owned()
            } else if p <= 6 {
                concat2("high/", number.as_str())
            } else if p == 7 {
                "max".to_owned()
            } else {
                number
            }
        },
    }
}

/// How many bytes of a row are missing.
pub open spec fn missing(row: RowView) -> int {
    let left = row.size - row.done;
    if left < 0 {
        0
    } else if left > i64::MAX {
        i64::MAX as int
    } else {
        left
    }
}

/// The name of a row behind its indent.
pub open spec fn indented(row: RowView) -> Seq<char> {
    repeated(' ', 2 * row.indent) + row.label
}

/// The cells of a row: its name, size, progress, priority, and what is missing. `share` is the
/// progress as it is written.
pub open spec fn content_cells(row: RowView, share: Seq<char>) -> Seq<Seq<char>> {
    seq![
        indented(row),
        byte_text(row.size as u64, true),
        share,
        priority_text(row.priority, row.mixed),
        byte_text(missing(row) as u64, true),
    ]
}

/// The cells of a row of the step that sets priorities.
pub open spec fn step_cells(row: RowView) -> Seq<Seq<char>> {
    seq![indented(row), byte_text(row.size as u64, true), priority_text(row.priority, row.mixed)]
}

/// The name of a row behind its indent.
fn indent_label(row: &TreeRow) -> (r: String)
    requires
        row.indent <= usize::MAX / 2,
    ensures
        r@ == indented(row@),
{
    let space = repeat_char(' ', 2 * row.indent);
    concat2(space.as_str(), row.label.as_str())
}

/// The cells of a row of the content tab.
pub fn content_row(row: &TreeRow, share: &str) -> (r: Vec<String>)
    requires
        row.indent <= usize::MAX / 2,
    ensures
        texts(r@) == content_cells(row@, share@),
{
    let left: i64 = if row.total_done >= row.total_size {
        0
    } else if row.total_done < 0 && row.total_size > i64::MAX + row.total_done {
        i64::MAX
    } else {
        row.total_size - row.total_done
    };
    let mut out: Vec<String> = Vec::new();
    out.push(indent_label(row));
    out.push(format_bytes(row.total_size));
    out.push(share.to_owned());
    out.push(priority_label(row.priority, row.is_mixed));
    out.push(format_bytes(left));
    assert(texts(out@) =~= content_cells(row@, share@));
    out
}

/// The cells of a row of the step that sets priorities.
pub fn step_row(row: &TreeRow) -> (r: Vec<String>)
    requires
        row.indent <= usize::MAX / 2,
    ensures
        texts(r@) == step_cells(row@),
{
    let mut out: Vec<String> = Vec::new();
    out.push(indent_label(row));
    out.push(format_bytes(row.total_size));
    out.push(priority_label(row.priority, row.is_mixed));
    assert(texts(out@) =~= step_cells(row@));
    out
}

// ----- peers and trackers -----

/// The cells of a peer. `share` is its progress as it is written.
pub open spec fn peer_cells(p: PeerInfo, share: Seq<char>) -> Seq<Seq<char>> {
    seq![
        p.ip@ + ":"@ + decimal(p.port as int),
        rate_text(p.download_rate),
        rate_text(p.upload_rate),
        p.client@,
        share,
        p.flags@,
    ]
}

/// The cells of a peer.
pub fn peer_row(peer: &PeerInfo, share: &str) -> (r: Vec<String>)
    ensures
        texts(r@) == peer_cells(*peer, share@),
{
    let port = decimal_i64(peer.port as i64);
    let mut out: Vec<String> = Vec::new();
    out.push(concat3(peer.ip.as_str(), ":", port.as_str()));
    out.push(format_rate(peer.download_rate));
    out.push(format_rate(peer.upload_rate));
    out.push(peer.client.clone());
    out.push(share.to_owned());
    out.push(peer.flags.clone());
    assert(texts(out@) =~= peer_cells(*peer, share@));
    out
}

/// What a tracker is doing.
#[derive(Clone, Copy, Debug, PartialEq, Eq, Structural)]
pub enum TrackerState {
    Updating,
    Failing,
    Working,
}

/// What a tracker is doing: an announce under way counts before past failures.
pub open spec fn tracker_doing(t: TrackerInfo) -> TrackerState {
    if t.updating {
        TrackerState::Updating
    } else if t.fails > 0 {
        TrackerState::Failing
    } else {
        TrackerState::Working
    }
}

/// What a tracker is doing, in a word.
pub open spec fn doing_text(state: TrackerState) -> Seq<char> {
    match state {
        TrackerState::Updating => "updating"@,
        TrackerState::Failing => "failing"@,
        TrackerState::Working => "ok"@,
    }
}

/// The cells of a tracker.
pub open spec fn tracker_cells(t: TrackerInfo) -> Seq<Seq<char>> {
    seq![
        decimal(t.tier as int),
        t.url@,
        decimal(t.fails as int),
        doing_text(tracker_doing(t)),
        t.message@,
    ]
}

/// The cells of a tracker.
pub fn tracker_row(tracker: &TrackerInfo) -> (r: Vec<String>)
    ensures
        texts(r@) == tracker_cells(*tracker),
{
    let doing = if tracker.updating {
        "updating"
    } else if tracker.fails > 0 {
        "failing"
    } else {
        "ok"
    };
    let mut out: Vec<String> = Vec::new();
    out.push(decimal_i64(tracker.tier as i64));
    out.push(tracker.url.clone());
    out.push(decimal_i64(tracker.fails as i64));
    out.push(doing.to_owned());
    out.push(tracker.message.clone());
    assert(texts(out@) =~= tracker_cells(*tracker));
    out
}

// ----- lines -----

/// A limit that is not inherited.
pub open spec fn limit_text(limit: i32) -> Seq<char> {
    if limit == 0 {
        "\u{221e}"@
    } else {
        rate_text(limit as i64)
    }
}

/// The limits of a torrent in one line, where it has any of its own.
pub open spec fn limits_text(download: i32, upload: i32) -> Option<Seq<char>> {
    let down = "\u{2193} limit: "@ + limit_text(download);
    let up = "\u{2191} limit: "@ + limit_text(upload);
    if download == -1 && upload == -1 {
        None
    } else if upload == -1 {
        Some(down)
    } else if download == -1 {
        Some(up)
    } else {
        Some(down + "  "@ + up)
    }
}

/// A limit that is not inherited.
fn write_limit(mark: &str, limit: i32) -> (r: String)
    ensures
        r@ == mark@ + limit_text(limit),
{
    let text = if limit == 0 {
        "\u{221e}".to_owned()
    } else {
        format_rate(limit as i64)
    };
    concat2(mark, text.as_str())
}

/// The limits of a torrent in one line.
pub fn rate_limit_line(download: i32, upload: i32) -> (r: Option<String>)
    ensures
        opt_text(r) == limits_text(download, upload),
{
    if download == -1 && upload == -1 {
        return None;
    }
    let down = write_limit("\u{2193} limit: ", download);
    let up = write_limit("\u{2191} limit: ", upload);
    if upload == -1 {
        Some(down)
    } else if download == -1 {
        Some(up)
    } else {
        Some(concat3(down.as_str(), "  ", up.as_str()))
    }
}

/// The line above the detail, for the selected torrent.
pub open spec fn limits_shown(v: MainView) -> Option<Seq<char>> {
    match selected_torrent(v) {
        Some(i) => limits_text(
            v.torrents[i as int].download_limit,
            v.torrents[i as int].upload_limit,
        ),
        None => None,
    }
}

/// The totals in one line.
pub open spec fn stats_text(s: StatsInfo) -> Seq<char> {
    " "@ + decimal(s.num_torrents as int) + " torrents  "@ + decimal(s.active_torrents as int)
        + " active  "@ + decimal(s.paused_torrents as int) + " paused  \u{2193} "@ + rate_text(
        s.download_rate,
    ) + "  \u{2191} "@ + rate_text(s.upload_rate) + "  dht "@ + decimal(s.total_dht_nodes as int)
        + "  peers "@ + decimal(s.num_peers as int) + " "@
}

/// The status line: the totals, or else what there is to tell.
pub open spec fn status_text(v: MainView) -> Seq<char> {
    match v.stats {
        Some(s) => stats_text(s),
        None => match v.error {
            Some(text) => " "@ + text + " "@,
            None => Seq::empty(),
        },
    }
}

/// The totals in one line.
fn stats_line(s: &StatsInfo) -> (r: String)
    ensures
        r@ == stats_text(*s),
{
    let torrents = decimal_i64(s.num_torrents as i64);
    let active = decimal_i64(s.active_torrents as i64);
    let paused = decimal_i64(s.paused_torrents as i64);
    let down = format_rate(s.download_rate);
    let up = format_rate(s.upload_rate);
    let nodes = decimal_i64(s.total_dht_nodes);
    let peers = decimal_i64(s.num_peers as i64);
    let a = concat4(" ", torrents.as_str(), " torrents  ", active.as_str());
    let b = concat4(a.as_str(), " active  ", paused.as_str(), " paused  \u{2193} ");
    let c = concat4(b.as_str(), down.as_str(), "  \u{2191} ", up.as_str());
    let d = concat4(c.as_str(), "  dht ", nodes.as_str(), "  peers ");
    concat3(d.as_str(), peers.as_str(), " ")
}

impl MainState {
    /// The line above the detail.
    pub fn limits_line(&self) -> (r: Option<String>)
        ensures
            opt_text(r) == limits_shown(self@),
    {
        match self.selected_torrent_index() {
            Some(i) => rate_limit_line(
                self.torrents[i].download_limit,
                self.torrents[i].upload_limit,
            ),
            None => None,
        }
    }

    /// The status line.
    pub fn status_line(&self) -> (r: String)
        ensures
            r@ == status_text(self@),
    {
        match &self.stats {
            Some(stats) => stats_line(stats),
            None => match &self.error {
                Some(text) => concat3(" ", text.as_str(), " "),
                None => {
                    let empty = String::new();
                    assert(empty@ =~= Seq::<char>::empty());
                    empty
                },
            },
        }
    }
}

/// The mark of the line that is typed.
pub open spec fn input_mark(input: InputView) -> Seq<char> {
    match input.purpose {
        InputPurpose::ListFilter => " / "@,
        InputPurpose::ContentFilter => " files "@,
    }
}

impl TextInput {
    /// The mark of the line that is typed.
    pub fn mark(&self) -> (r: &'static str)
        ensures
            r@ == input_mark(self@),
    {
        match self.purpose {
            InputPurpose::ListFilter => " / ",
            InputPurpose::ContentFilter => " files ",
        }
    }
}

/// The mark of a column in the list of columns: its place among the shown ones.
pub open spec fn column_mark(visible: Seq<Column>, column: Column) -> Seq<char> {
    if visible.contains(column) {
        " ["@ + decimal(first_of(visible, column) + 1) + "] "@
    } else {
        " [ ] "@
    }
}

/// The mark of a column in the list of columns.
pub fn mark_column(visible: &Vec<Column>, column: Column) -> (r: String)
    ensures
        r@ == column_mark(visible@, column),
{
    let at: usize = crate::tui::columns::find_column(visible, column);
    if at < visible.len() {
        let place = decimal_u64(at as u64 + 1);
        concat3(" [", place.as_str(), "] ")
    } else {
        " [ ] ".to_owned()
    }
}

// ----- dialogs -----

/// How many bytes a character takes in UTF-8.
pub open spec fn char_bytes(c: char) -> int {
    if (c as u32) < 0x80 {
        1
    } else if (c as u32) < 0x800 {
        2
    } else if (c as u32) < 0x10000 {
        3
    } else {
        4
    }
}

/// How many bytes a text takes.
pub open spec fn text_bytes(s: Seq<char>) -> int
    decreases s.len(),
{
    if s.len() == 0 {
        0
    } else {
        text_bytes(s.drop_last()) + char_bytes(s.last())
    }
}

/// How many of the first `n` characters fit into so many bytes, from the first on.
pub open spec fn bytes_fitting(s: Seq<char>, budget: int, n: int) -> int
    decreases n,
{
    if n <= 0 {
        0
    } else if text_bytes(s.take(n)) <= budget {
        n
    } else {
        bytes_fitting(s, budget, n - 1)
    }
}

/// The name in the question whether to delete: cut where it takes more bytes than there are
/// cells for it.
pub open spec fn dialog_name(name: Seq<char>, width: int) -> Seq<char> {
    if text_bytes(name) > width - 2 {
        name.take(bytes_fitting(name, width - 3, name.len() as int)) + "\u{2026}"@
    } else {
        name
    }
}

/// A text takes no negative number of bytes, and its start no more than the whole.
proof fn lemma_text_bytes(s: Seq<char>, n: int)
    requires
        0 <= n <= s.len(),
    ensures
        0 <= text_bytes(s.take(n)) <= text_bytes(s),
        text_bytes(s) <= 4 * s.len(),
    decreases s.len(),
{
    if s.len() > 0 {
        if n < s.len() {
            lemma_text_bytes(s.drop_last(), n);
            assert(s.drop_last().take(n) =~= s.take(n));
        } else {
            assert(s.take(n) =~= s);
            lemma_text_bytes(s.drop_last(), n - 1);
        }
    }
}

/// The first `n` characters that fit are found going forwards as well.
proof fn lemma_bytes_fitting(s: Seq<char>, budget: int, k: int, n: int)
    requires
        0 <= k <= n <= s.len(),
        text_bytes(s.take(k)) <= budget,
        k < n ==> text_bytes(s.take(k + 1)) > budget,
    ensures
        bytes_fitting(s, budget, n) == k,
    decreases n,
{
    if k < n {
        let t = s.take(n);
        lemma_text_bytes(t, k + 1);
        assert(t.take(k + 1) =~= s.take(k + 1));
        assert(text_bytes(s.take(n)) > budget);
        lemma_bytes_fitting(s, budget, k, n - 1);
    }
}

/// How many bytes a character takes.
fn bytes_of(c: char) -> (r: usize)
    ensures
        r == char_bytes(c),
{
    let code: u32 = c as u32;
    if code < 0x80 {
        1
    } else if code < 0x800 {
        2
    } else if code < 0x10000 {
        3
    } else {
        4
    }
}

/// The name in the question whether to delete.
pub fn cut_dialog_name(name: &str, width: u16) -> (r: String)
    requires
        width >= 3,
    ensures
        r@ == dialog_name(name@, width as int),
{
    let v = chars_of(name);
    let room: usize = width as usize - 2;
    let budget: usize = width as usize - 3;
    let mut used: usize = 0;
    let mut fit: usize = 0;
    let mut i: usize = 0;
    assert(v@.take(0) =~= Seq::<char>::empty());
    while i < v.len() && used <= room
        invariant
            i <= v@.len(),
            room == width - 2,
            budget == width - 3,
            width >= 3,
            used == text_bytes(v@.take(i as int)),
            used <= room + 4,
            fit <= i,
            text_bytes(v@.take(fit as int)) <= budget,
            used <= budget ==> fit == i,
            used > budget ==> fit < i && text_bytes(v@.take(fit + 1)) > budget,
        decreases v@.len() - i,
    {
        proof {
            assert(v@.take(i as int + 1).drop_last() =~= v@.take(i as int));
            assert(v@.take(i as int + 1).last() == v@[i as int]);
        }
        used = used + bytes_of(v[i]);
        if used <= budget {
            fit = i + 1;
        }
        i = i + 1;
    }
    proof {
        lemma_text_bytes(v@, i as int);
        if i == v@.len() {
            assert(v@.take(i as int) =~= v@);
        }
    }
    if used <= room {
        return name.to_owned();
    }
    proof {
        lemma_bytes_fitting(v@, budget as int, fit as int, v@.len() as int);
    }
    let head = string_of(v.as_slice(), 0, fit);
    assert(head@ =~= v@.take(fit as int));
    concat2(head.as_str(), "\u{2026}")
}

/// A dialog in the middle of the screen.
pub open spec fn middle(area: Area, width: int, height: int) -> Area {
    Area {
        x: (area.x + (if area.width > width {
            (area.width - width) / 2
        } else {
            0
        })) as u16,
        y: (area.y + (if area.height > height {
            (area.height - height) / 2
        } else {
            0
        })) as u16,
        width: width as u16,
        height: height as u16,
    }
}

/// A dialog in the middle of the screen.
pub fn centred(area: Area, width: u16, height: u16) -> (r: Area)
    requires
        area.x + area.width <= u16::MAX,
        area.y + area.height <= u16::MAX,
    ensures
        r == middle(area, width as int, height as int),
{
    let dx: u16 = if area.width > width { (area.width - width) / 2 } else { 0 };
    let dy: u16 = if area.height > height { (area.height - height) / 2 } else { 0 };
    Area { x: area.x + dx, y: area.y + dy, width, height }
}

/// A size that leaves some cells of the screen free.
pub open spec fn at_most(wanted: int, space: int, free: int) -> int {
    let most = if space > free {
        space - free
    } else {
        0
    };
    if wanted < most {
        wanted
    } else {
        most
    }
}

/// A size that leaves some cells of the screen free.
pub fn limited(wanted: u16, space: u16, free: u16) -> (r: u16)
    ensures
        r == at_most(wanted as int, space as int, free as int),
{
    let most: u16 = space.saturating_sub(free);
    if wanted < most {
        wanted
    } else {
        most
    }
}

/// Seven tenths of the screen, but no less than `least`, and with four cells left free.
pub open spec fn wide(space: int, least: int) -> int {
    let share = space * 70 / 100;
    if share < least {
        least
    } else if share > space - 4 {
        space - 4
    } else {
        share
    }
}

/// Seven tenths of the screen, but no less than `least`, and with four cells left free.
pub fn wide_dialog(space: u16, least: u16) -> (r: u16)
    requires
        least + 4 <= space,
    ensures
        r == wide(space as int, least as int),
{
    let share: u16 = (space as u32 * 70 / 100) as u16;
    if share < least {
        least
    } else if share > space - 4 {
        space - 4
    } else {
        share
    }
}

/// A dialog that fits on the screen lies on it.
pub proof fn law_dialogs_lie_on_the_screen(area: Area, width: int, height: int)
    requires
        0 <= width <= area.width,
        0 <= height <= area.height,
        area.x + area.width <= u16::MAX,
        area.y + area.height <= u16::MAX,
    ensures
        ({
            let r = middle(area, width, height);
            &&& area.x <= r.x && r.x + r.width <= area.x + area.width
            &&& area.y <= r.y && r.y + r.height <= area.y + area.height
        }),
{
}

} // verus!
