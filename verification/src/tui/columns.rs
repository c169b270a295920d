//! The columns of the list of torrents.

use crate::display::{byte_text, format_bytes, format_rate, format_timestamp, rate_text, shown_time};
use crate::ipc::TorrentInfo;
use crate::names::NameMap;
use crate::text::{
    chars_of, concat3, decimal, decimal_i64, decimal_u64, join, join_with, same, texts,
};
use vstd::prelude::*;

verus! {

/// A column that the list of torrents can show.
#[derive(Clone, Copy, Debug, PartialEq, Eq, Structural)]
pub enum Column {
    Index,
    Name,
    State,
    Progress,
    Down,
    Up,
    Peers,
    Seeds,
    Size,
    Downloaded,
    Uploaded,
    AddedOn,
    CompletedOn,
    SavePath,
    Category,
    Tags,
    InfoHash,
}

/// How many columns there are.
pub const COLUMN_COUNT: usize = 17;

/// The least width of a column: even a narrow one shows part of its label.
pub const MIN_COLUMN_WIDTH: u16 = 3;

impl Column {
    /// All columns, in the order in which they are offered.
    pub open spec fn all() -> Seq<Column> {
        seq![Column::Index, Column::Name, Column::State, Column::Progress, Column::Down, Column::Up, Column::Peers, Column::Seeds, Column::Size, Column::Downloaded, Column::Uploaded, Column::AddedOn, Column::CompletedOn, Column::SavePath, Column::Category, Column::Tags, Column::InfoHash]
    }

    /// The columns that are shown where none are configured.
    pub open spec fn defaults() -> Seq<Column> {
        seq![
            Column::Index,
            Column::Name,
            Column::State,
            Column::Progress,
            Column::Down,
            Column::Up,
            Column::Peers,
        ]
    }

    /// The word by which the column is configured.
    pub open spec fn key_text(self) -> Seq<char> {
        match self {
            Column::Index => "index"@,
            Column::Name => "name"@,
            Column::State => "state"@,
            Column::Progress => "progress"@,
            Column::Down => "down"@,
            Column::Up => "up"@,
            Column::Peers => "peers"@,
            Column::Seeds => "seeds"@,
            Column::Size => "size"@,
            Column::Downloaded => "downloaded"@,
            Column::Uploaded => "uploaded"@,
            Column::AddedOn => "added_on"@,
            Column::CompletedOn => "completed_on"@,
            Column::SavePath => "save_path"@,
            Column::Category => "category"@,
            Column::Tags => "tags"@,
            Column::InfoHash => "info_hash"@,
        }
    }

    /// The label of the column.
    pub open spec fn label_text(self) -> Seq<char> {
        match self {
            Column::Index => "index"@,
            Column::Name => "name"@,
            Column::State => "status"@,
            Column::Progress => "progress"@,
            Column::Down => "down"@,
            Column::Up => "up"@,
            Column::Peers => "peers"@,
            Column::Seeds => "seeds"@,
            Column::Size => "size"@,
            Column::Downloaded => "downloaded"@,
            Column::Uploaded => "uploaded"@,
            Column::AddedOn => "added on"@,
            Column::CompletedOn => "completed on"@,
            Column::SavePath => "save path"@,
            Column::Category => "category"@,
            Column::Tags => "tags"@,
            Column::InfoHash => "info hash"@,
        }
    }

    /// The width of the column where none is configured.
    pub open spec fn default_width(self) -> u16 {
        match self {
            Column::Index => 6,
            Column::Name => 28,
            Column::State => 12,
            Column::Progress => 9,
            Column::Down => 12,
            Column::Up => 12,
            Column::Peers => 9,
            Column::Seeds => 9,
            Column::Size => 10,
            Column::Downloaded => 12,
            Column::Uploaded => 12,
            Column::AddedOn => 19,
            Column::CompletedOn => 19,
            Column::SavePath => 28,
            Column::Category => 12,
            Column::Tags => 14,
            Column::InfoHash => 40,
        }
    }

    /// The column at a position of the list of all.
    pub fn at(position: usize) -> (r: Column)
        requires
            position < COLUMN_COUNT,
        ensures
            r == Column::all()[position as int],
    {
        if position == 0 {
            Column::Index
        } else if position == 1 {
            Column::Name
        } else if position == 2 {
            Column::State
        } else if position == 3 {
            Column::Progress
        } else if position == 4 {
            Column::Down
        } else if position == 5 {
            Column::Up
        } else if position == 6 {
            Column::Peers
        } else if position == 7 {
            Column::Seeds
        } else if position == 8 {
            Column::Size
        } else if position == 9 {
            Column::Downloaded
        } else if position == 10 {
            Column::Uploaded
        } else if position == 11 {
            Column::AddedOn
        } else if position == 12 {
            Column::CompletedOn
        } else if position == 13 {
            Column::SavePath
        } else if position == 14 {
            Column::Category
        } else if position == 15 {
            Column::Tags
        } else {
            Column::InfoHash
        }
    }

    /// The word by which the column is configured.
    pub fn key(self) -> (r: &'static str)
        ensures
            r@ == self.key_text(),
    {
        match self {
            Column::Index => "index",
            Column::Name => "name",
            Column::State => "state",
            Column::Progress => "progress",
            Column::Down => "down",
            Column::Up => "up",
            Column::Peers => "peers",
            Column::Seeds => "seeds",
            Column::Size => "size",
            Column::Downloaded => "downloaded",
            Column::Uploaded => "uploaded",
            Column::AddedOn => "added_on",
            Column::CompletedOn => "completed_on",
            Column::SavePath => "save_path",
            Column::Category => "category",
            Column::Tags => "tags",
            Column::InfoHash => "info_hash",
        }
    }

    /// The label of the column.
    pub fn label(self) -> (r: &'static str)
        ensures
            r@ == self.label_text(),
    {
        match self {
            Column::Index => "index",
            Column::Name => "name",
            Column::State => "status",
            Column::Progress => "progress",
            Column::Down => "down",
            Column::Up => "up",
            Column::Peers => "peers",
            Column::Seeds => "seeds",
            Column::Size => "size",
            Column::Downloaded => "downloaded",
            Column::Uploaded => "uploaded",
            Column::AddedOn => "added on",
            Column::CompletedOn => "completed on",
            Column::SavePath => "save path",
            Column::Category => "category",
            Column::Tags => "tags",
            Column::InfoHash => "info hash",
        }
    }

    /// The width of the column where none is configured.
    pub fn default_width_cells(self) -> (r: u16)
        ensures
            r == self.default_width(),
    {
        match self {
            Column::Index => 6,
            Column::Name => 28,
            Column::State => 12,
            Column::Progress => 9,
            Column::Down => 12,
            Column::Up => 12,
            Column::Peers => 9,
            Column::Seeds => 9,
            Column::Size => 10,
            Column::Downloaded => 12,
            Column::Uploaded => 12,
            Column::AddedOn => 19,
            Column::CompletedOn => 19,
            Column::SavePath => 28,
            Column::Category => 12,
            Column::Tags => 14,
            Column::InfoHash => 40,
        }
    }

    /// The column that a word stands for.
    pub fn from_key(key: &str) -> (r: Option<Column>)
        ensures
            r == column_named(key@),
    {
        if same(key, "index") {
            Some(Column::Index)
        } else if same(key, "name") {
            Some(Column::Name)
        } else if same(key, "state") {
            Some(Column::State)
        } else if same(key, "progress") {
            Some(Column::Progress)
        } else if same(key, "down") {
            Some(Column::Down)
        } else if same(key, "up") {
            Some(Column::Up)
        } else if same(key, "peers") {
            Some(Column::Peers)
        } else if same(key, "seeds") {
            Some(Column::Seeds)
        } else if same(key, "size") {
            Some(Column::Size)
        } else if same(key, "downloaded") {
            Some(Column::Downloaded)
        } else if same(key, "uploaded") {
            Some(Column::Uploaded)
        } else if same(key, "added_on") {
            Some(Column::AddedOn)
        } else if same(key, "completed_on") {
            Some(Column::CompletedOn)
        } else if same(key, "save_path") {
            Some(Column::SavePath)
        } else if same(key, "category") {
            Some(Column::Category)
        } else if same(key, "tags") {
            Some(Column::Tags)
        } else if same(key, "info_hash") {
            Some(Column::InfoHash)
        } else {
            None
        }
    }
}

/// The column that a word stands for.
pub open spec fn column_named(key: Seq<char>) -> Option<Column> {
    if key == "index"@ {
        Some(Column::Index)
    } else if key == "name"@ {
        Some(Column::Name)
    } else if key == "state"@ {
        Some(Column::State)
    } else if key == "progress"@ {
        Some(Column::Progress)
    } else if key == "down"@ {
        Some(Column::Down)
    } else if key == "up"@ {
        Some(Column::Up)
    } else if key == "peers"@ {
        Some(Column::Peers)
    } else if key == "seeds"@ {
        Some(Column::Seeds)
    } else if key == "size"@ {
        Some(Column::Size)
    } else if key == "downloaded"@ {
        Some(Column::Downloaded)
    } else if key == "uploaded"@ {
        Some(Column::Uploaded)
    } else if key == "added_on"@ {
        Some(Column::AddedOn)
    } else if key == "completed_on"@ {
        Some(Column::CompletedOn)
    } else if key == "save_path"@ {
        Some(Column::SavePath)
    } else if key == "category"@ {
        Some(Column::Category)
    } else if key == "tags"@ {
        Some(Column::Tags)
    } else if key == "info_hash"@ {
        Some(Column::InfoHash)
    } else {
        None
    }
}

/// Every column is found again by its word.
pub proof fn law_columns_are_found_by_key(column: Column)
    ensures
        column_named(column.key_text()) == Some(column),
{
    reveal_strlit("index");
    assert("index"@.len() == 5);
    reveal_strlit("name");
    assert("name"@.len() == 4);
    reveal_strlit("state");
    assert("state"@.len() == 5);
    reveal_strlit("progress");
    assert("progress"@.len() == 8);
    reveal_strlit("down");
    assert("down"@.len() == 4);
    reveal_strlit("up");
    assert("up"@.len() == 2);
    reveal_strlit("peers");
    assert("peers"@.len() == 5);
    reveal_strlit("seeds");
    assert("seeds"@.len() == 5);
    reveal_strlit("size");
    assert("size"@.len() == 4);
    reveal_strlit("downloaded");
    assert("downloaded"@.len() == 10);
    reveal_strlit("uploaded");
    assert("uploaded"@.len() == 8);
    reveal_strlit("added_on");
    assert("added_on"@.len() == 8);
    reveal_strlit("completed_on");
    assert("completed_on"@.len() == 12);
    reveal_strlit("save_path");
    assert("save_path"@.len() == 9);
    reveal_strlit("category");
    assert("category"@.len() == 8);
    reveal_strlit("tags");
    assert("tags"@.len() == 4);
    reveal_strlit("info_hash");
    assert("info_hash"@.len() == 9);
    assert("index"@[0] != "state"@[0]);
    assert("index"@[0] != "peers"@[0]);
    assert("index"@[0] != "seeds"@[0]);
    assert("name"@[0] != "down"@[0]);
    assert("name"@[0] != "size"@[0]);
    assert("name"@[0] != "tags"@[0]);
    assert("state"@[0] != "peers"@[0]);
    assert("state"@[1] != "seeds"@[1]);
    assert("progress"@[0] != "uploaded"@[0]);
    assert("progress"@[0] != "added_on"@[0]);
    assert("progress"@[0] != "category"@[0]);
    assert("down"@[0] != "size"@[0]);
    assert("down"@[0] != "tags"@[0]);
    assert("peers"@[0] != "seeds"@[0]);
    assert("size"@[0] != "tags"@[0]);
    assert("uploaded"@[0] != "added_on"@[0]);
    assert("uploaded"@[0] != "category"@[0]);
    assert("added_on"@[0] != "category"@[0]);
    assert("save_path"@[0] != "info_hash"@[0]);
}

// ----- cells -----

/// A text with another character in place of one.
pub open spec fn replaced(s: Seq<char>, from: char, to: char) -> Seq<char> {
    s.map_values(|c: char| if c == from { to } else { c })
}

/// A text with another character in place of one.
pub fn replace_char(s: &str, from: char, to: char) -> (r: String)
    ensures
        r@ == replaced(s@, from, to),
{
    let v = chars_of(s);
    let mut out = String::new();
    let mut i: usize = 0;
    while i < v.len()
        invariant
            i <= v@.len(),
            out@ == replaced(v@.take(i as int), from, to),
        decreases v@.len() - i,
    {
        let c = v[i];
        out.push(if c == from { to } else { c });
        assert(out@ =~= replaced(v@.take(i as int + 1), from, to));
        i = i + 1;
    }
    assert(v@.take(v@.len() as int) =~= v@);
    out
}

/// The state of a torrent as it is shown: words, or one glyph where the terminal has them.
pub open spec fn state_text(state: Seq<char>, is_paused: bool, glyphs: bool) -> Seq<char> {
    if is_paused {
        if glyphs {
            "\u{f04c}"@
        } else {
            "paused"@
        }
    } else if glyphs {
        if state == "downloading"@ {
            "\u{f019}"@
        } else if state == "seeding"@ {
            "\u{f093}"@
        } else if state == "finished"@ {
            "\u{f00c}"@
        } else if state == "downloading_metadata"@ {
            "\u{f1ce}"@
        } else if state == "checking_files"@ || state == "checking_resume_data"@ {
            "\u{f021}"@
        } else if state == "allocating"@ {
            "\u{f0c7}"@
        } else {
            state
        }
    } else {
        if state == "checking_resume_data"@ {
            "checking resume"@
        } else {
            replaced(state, '_', ' ')
        }
    }
}

/// The state of a torrent as it is shown.
pub fn format_state_with(state: &str, is_paused: bool, nerd_font: bool) -> (r: String)
    ensures
        r@ == state_text(state@, is_paused, nerd_font),
{
    if is_paused {
        return if nerd_font {
            "\u{f04c}".to_owned()
        } else {
            "paused".to_owned()
        };
    }
    if nerd_font {
        return if same(state, "downloading") {
            "\u{f019}".to_owned()
        } else if same(state, "seeding") {
            "\u{f093}".to_owned()
        } else if same(state, "finished") {
            "\u{f00c}".to_owned()
        } else if same(state, "downloading_metadata") {
            "\u{f1ce}".to_owned()
        } else if same(state, "checking_files") || same(state, "checking_resume_data") {
            "\u{f021}".to_owned()
        } else if same(state, "allocating") {
            "\u{f0c7}".to_owned()
        } else {
            state.to_owned()
        };
    }
    if same(state, "checking_resume_data") {
        "checking resume".to_owned()
    } else {
        replace_char(state, '_', ' ')
    }
}

/// The cell of a torrent in a column. `share` is its progress as it is shown.
pub open spec fn cell_text(
    column: Column,
    index: usize,
    t: TorrentInfo,
    share: Seq<char>,
    glyphs: bool,
) -> Seq<char> {
    match column {
        Column::Index => decimal(index as int),
        Column::Name => t.name@,
        Column::State => state_text(t.state@, t.is_paused, glyphs),
        Column::Progress => share,
        Column::Down => rate_text(t.download_rate),
        Column::Up => rate_text(t.upload_rate),
        Column::Peers => decimal(t.connected_peers as int) + "/"@ + decimal(t.total_peers as int),
        Column::Seeds => decimal(t.connected_seeds as int) + "/"@ + decimal(t.total_seeds as int),
        Column::Size => byte_text(t.total_wanted as u64, true),
        Column::Downloaded => byte_text(t.total_download as u64, true),
        Column::Uploaded => byte_text(t.total_upload as u64, true),
        Column::AddedOn => shown_time(t.added_time),
        Column::CompletedOn => shown_time(t.completed_time),
        Column::SavePath => t.save_path@,
        Column::Category => match t.category {
            Some(name) => name@,
            None => Seq::empty(),
        },
        Column::Tags => join(t.tags.list(), ","@),
        Column::InfoHash => t.info_hash@,
    }
}

impl Column {
    /// The cell of a torrent in the column. `share` is its progress as it is shown.
    pub fn render(self, index: usize, torrent: &TorrentInfo, share: &str, nerd_font: bool) -> (r:
        String)
        ensures
            r@ == cell_text(self, index, *torrent, share@, nerd_font),
    {
        match self {
            Column::Index => decimal_u64(index as u64),
            Column::Name => torrent.name.clone(),
            Column::State => format_state_with(
                torrent.state.as_str(),
                torrent.is_paused,
                nerd_font,
            ),
            Column::Progress => share.to_owned(),
            Column::Down => format_rate(torrent.download_rate),
            Column::Up => format_rate(torrent.upload_rate),
            Column::Peers => {
                let near = decimal_i64(torrent.connected_peers);
                let all = decimal_i64(torrent.total_peers);
                concat3(near.as_str(), "/", all.as_str())
            },
            Column::Seeds => {
                let near = decimal_i64(torrent.connected_seeds);
                let all = decimal_i64(torrent.total_seeds);
                concat3(near.as_str(), "/", all.as_str())
            },
            Column::Size => format_bytes(torrent.total_wanted),
            Column::Downloaded => format_bytes(torrent.total_download),
            Column::Uploaded => format_bytes(torrent.total_upload),
            Column::AddedOn => format_timestamp(torrent.added_time),
            Column::CompletedOn => format_timestamp(torrent.completed_time),
            Column::SavePath => torrent.save_path.clone(),
            Column::Category => match &torrent.category {
                Some(name) => name.clone(),
                None => {
                    let none = String::new();
                    assert(none@ =~= Seq::<char>::empty());
                    none
                },
            },
            Column::Tags => join_with(&torrent.tags.items, ","),
            Column::InfoHash => torrent.info_hash.clone(),
        }
    }
}

// ----- which columns are shown -----

/// The columns that the words stand for, in order; words that stand for none are left out.
pub open spec fn columns_named(keys: Seq<Seq<char>>) -> Seq<Column>
    decreases keys.len(),
{
    if keys.len() == 0 {
        Seq::empty()
    } else {
        match column_named(keys.last()) {
            Some(column) => columns_named(keys.drop_last()).push(column),
            None => columns_named(keys.drop_last()),
        }
    }
}

/// The columns to show: the configured ones, or the default ones where none are known.
pub open spec fn shown_columns(keys: Seq<Seq<char>>) -> Seq<Column> {
    if columns_named(keys).len() == 0 {
        Column::defaults()
    } else {
        columns_named(keys)
    }
}

/// The columns to show.
pub fn configured_columns(keys: &Vec<String>) -> (r: Vec<Column>)
    ensures
        r@ == shown_columns(texts(keys@)),
        r@.len() > 0,
{
    let ghost all = texts(keys@);
    let mut out: Vec<Column> = Vec::new();
    let mut i: usize = 0;
    assert(all.take(0) =~= Seq::<Seq<char>>::empty());
    assert(out@ =~= Seq::<Column>::empty());
    while i < keys.len()
        invariant
            i <= keys@.len(),
            all == texts(keys@),
            out@ == columns_named(all.take(i as int)),
        decreases keys@.len() - i,
    {
        proof {
            assert(all.take(i as int + 1).drop_last() =~= all.take(i as int));
            assert(all.take(i as int + 1).last() == keys@[i as int]@);
        }
        if let Some(column) = Column::from_key(keys[i].as_str()) {
            out.push(column);
        }
        i = i + 1;
    }
    assert(all.take(all.len() as int) =~= all);
    if out.len() == 0 {
        out.push(Column::Index);
        out.push(Column::Name);
        out.push(Column::State);
        out.push(Column::Progress);
        out.push(Column::Down);
        out.push(Column::Up);
        out.push(Column::Peers);
        assert(out@ =~= Column::defaults());
    }
    out
}

/// The words of the columns, as they are configured.
pub fn column_keys(columns: &Vec<Column>) -> (r: Vec<String>)
    ensures
        texts(r@) == columns@.map_values(|c: Column| c.key_text()),
{
    let mut out: Vec<String> = Vec::new();
    let mut i: usize = 0;
    while i < columns.len()
        invariant
            i <= columns@.len(),
            out@.len() == i,
            forall|j: int| 0 <= j < i ==> (#[trigger] out@[j])@ == columns@[j].key_text(),
        decreases columns@.len() - i,
    {
        out.push(columns[i].key().to_owned());
        i = i + 1;
    }
    assert(texts(out@) =~= columns@.map_values(|c: Column| c.key_text()));
    out
}

/// What is stored of the columns brings them back.
pub proof fn law_stored_columns_come_back(columns: Seq<Column>)
    requires
        columns.len() > 0,
    ensures
        shown_columns(columns.map_values(|c: Column| c.key_text())) == columns,
{
    lemma_columns_named(columns);
}

/// The words of columns stand for them.
proof fn lemma_columns_named(columns: Seq<Column>)
    ensures
        columns_named(columns.map_values(|c: Column| c.key_text())) == columns,
    decreases columns.len(),
{
    let keys = columns.map_values(|c: Column| c.key_text());
    if columns.len() > 0 {
        lemma_columns_named(columns.drop_last());
        assert(keys.drop_last() =~= columns.drop_last().map_values(|c: Column| c.key_text()));
        law_columns_are_found_by_key(columns.last());
        assert(columns.drop_last().push(columns.last()) =~= columns);
    } else {
        assert(columns_named(keys) =~= columns);
    }
}

// ----- widths -----

/// The width that a column asks for: the configured one or its own, and the least width at
/// least.
pub open spec fn proposed(column: Column, widths: NameMap<u16>) -> int {
    let asked = if widths.has(column.key_text()) {
        widths.at(column.key_text())
    } else {
        column.default_width()
    };
    if asked < MIN_COLUMN_WIDTH {
        MIN_COLUMN_WIDTH as int
    } else {
        asked as int
    }
}

/// A number, or 0 where it is negative.
pub open spec fn at_least_zero(n: int) -> int {
    if n < 0 {
        0
    } else {
        n
    }
}

/// The smaller number.
pub open spec fn smaller(a: int, b: int) -> int {
    if a < b {
        a
    } else {
        b
    }
}

/// The widths of the first `n` columns, each as wide as it asks for as long as the least width
/// is left for the last one.
pub open spec fn leading_widths(visible: Seq<Column>, widths: NameMap<u16>, usable: int, n: int) -> Seq<
    int,
>
    decreases n,
{
    if n <= 0 {
        Seq::empty()
    } else {
        let before = leading_widths(visible, widths, usable, n - 1);
        let room = at_least_zero(usable - total(before) - MIN_COLUMN_WIDTH);
        before.push(smaller(proposed(visible[n - 1], widths), room))
    }
}

/// The sum of widths.
pub open spec fn total(widths: Seq<int>) -> int
    decreases widths.len(),
{
    if widths.len() == 0 {
        0
    } else {
        total(widths.drop_last()) + widths.last()
    }
}

/// The widths of the columns in a space of `available` cells, one of which stands between each
/// two columns. The last column takes what is left.
pub open spec fn column_widths(visible: Seq<Column>, widths: NameMap<u16>, available: int) -> Seq<
    int,
> {
    if visible.len() == 0 {
        Seq::empty()
    } else {
        let n = visible.len() - 1;
        let usable = at_least_zero(available - n);
        let leading = leading_widths(visible, widths, usable, n);
        let rest = at_least_zero(usable - total(leading));
        leading.push(rest)
    }
}

/// The widths as integers.
pub open spec fn width_values(v: Seq<u16>) -> Seq<int> {
    v.map_values(|w: u16| w as int)
}

/// The leading columns leave the least width for the last, where there is room at all.
proof fn lemma_leading_widths(visible: Seq<Column>, widths: NameMap<u16>, usable: int, n: int)
    requires
        usable >= 0,
        n >= 0,
    ensures
        leading_widths(visible, widths, usable, n).len() == n,
        0 <= total(leading_widths(visible, widths, usable, n)) <= at_least_zero(
            usable - MIN_COLUMN_WIDTH,
        ),
        forall|i: int|
            0 <= i < n ==> 0 <= #[trigger] leading_widths(visible, widths, usable, n)[i]
                <= proposed(visible[i], widths),
    decreases n,
{
    if n > 0 {
        lemma_leading_widths(visible, widths, usable, n - 1);
        let before = leading_widths(visible, widths, usable, n - 1);
        let all = leading_widths(visible, widths, usable, n);
        assert(all.drop_last() =~= before);
        assert forall|i: int| 0 <= i < n implies 0 <= #[trigger] all[i] <= proposed(
            visible[i],
            widths,
        ) by {
            if i < n - 1 {
                assert(all[i] == before[i]);
            }
        }
    }
}

/// The widths of the columns in a space of `available` cells.
pub fn compute_column_widths(visible: &[Column], overrides: &NameMap<u16>, available: u16) -> (r: Vec<
    u16,
>)
    requires
        overrides.wf(),
        visible@.len() <= 65536,
    ensures
        width_values(r@) == column_widths(visible@, *overrides, available as int),
        r@.len() == visible@.len(),
{
    let count: usize = visible.len();
    let mut out: Vec<u16> = Vec::new();
    if count == 0 {
        assert(width_values(out@) =~= Seq::<int>::empty());
        return out;
    }
    let separators: u16 = (count - 1) as u16;
    let usable: u16 = available.saturating_sub(separators);
    let mut consumed: u16 = 0;
    let mut i: usize = 0;
    assert(width_values(out@) =~= leading_widths(visible@, *overrides, usable as int, 0));
    while i < count - 1
        invariant
            i <= count - 1,
            count == visible@.len(),
            overrides.wf(),
            width_values(out@) == leading_widths(
                visible@,
                *overrides,
                usable as int,
                i as int,
            ),
            out@.len() == i,
            consumed == total(width_values(out@)),
            consumed <= usable,
        decreases count - i,
    {
        let column = visible[i];
        let asked: u16 = match overrides.get(column.key()) {
            Some(w) => *w,
            None => column.default_width_cells(),
        };
        let wanted: u16 = if asked < MIN_COLUMN_WIDTH { MIN_COLUMN_WIDTH } else { asked };
        let room: u16 = (usable - consumed).saturating_sub(MIN_COLUMN_WIDTH);
        let actual: u16 = if wanted < room { wanted } else { room };
        let ghost before = out@;
        out.push(actual);
        proof {
            assert(width_values(out@) =~= width_values(before).push(actual as int));
            assert(width_values(out@).drop_last() =~= width_values(before));
        }
        consumed = consumed + actual;
        i = i + 1;
    }
    let rest: u16 = usable - consumed;
    let ghost before = out@;
    out.push(rest);
    assert(width_values(out@) =~= width_values(before).push(rest as int));
    out
}

/// Where there is room for the cells between the columns, these and the widths fill the space
/// exactly. No column is wider than it asks for but the last, and the last has at least the least
/// width where that is left.
pub proof fn law_columns_fill_the_space(
    visible: Seq<Column>,
    widths: NameMap<u16>,
    available: int,
)
    requires
        visible.len() > 0,
        available >= visible.len() - 1,
    ensures
        ({
            let r = column_widths(visible, widths, available);
            &&& r.len() == visible.len()
            &&& total(r) + (visible.len() - 1) == available
            &&& available - (visible.len() - 1) >= MIN_COLUMN_WIDTH ==> r.last() >= MIN_COLUMN_WIDTH
            &&& forall|i: int|
                0 <= i < visible.len() - 1 ==> 0 <= #[trigger] r[i] <= proposed(visible[i], widths)
        }),
{
    let n = visible.len() - 1;
    let usable = at_least_zero(available - n);
    lemma_leading_widths(visible, widths, usable, n);
    let leading = leading_widths(visible, widths, usable, n);
    let r = column_widths(visible, widths, available);
    assert(r.drop_last() =~= leading);
    assert forall|i: int| 0 <= i < visible.len() - 1 implies 0 <= #[trigger] r[i] <= proposed(
        visible[i],
        widths,
    ) by {
        assert(r[i] == leading[i]);
    }
}

/// The columns take no more than the space.
pub proof fn lemma_widths_bound(visible: Seq<Column>, widths: NameMap<u16>, available: int)
    requires
        available >= 0,
    ensures
        column_widths(visible, widths, available).len() == visible.len(),
        0 <= total(column_widths(visible, widths, available)) <= available,
{
    if visible.len() > 0 {
        let n = visible.len() - 1;
        let usable = at_least_zero(available - n);
        lemma_leading_widths(visible, widths, usable, n);
        let leading = leading_widths(visible, widths, usable, n);
        assert(column_widths(visible, widths, available).drop_last() =~= leading);
    }
}

/// Where the divider behind the column at position `i` stands, in a list that begins at `x`.
pub open spec fn boundary(widths: Seq<int>, x: int, i: int) -> int {
    x + total(widths.take(i + 1)) + i
}

/// Where the dividers between the columns stand.
pub open spec fn boundaries_of(widths: Seq<int>, x: int) -> Seq<int> {
    Seq::new(
        if widths.len() > 0 {
            (widths.len() - 1) as nat
        } else {
            0nat
        },
        |i: int| boundary(widths, x, i),
    )
}

/// The parts of a sum are no larger than it, where nothing is negative.
proof fn lemma_total_part(widths: Seq<int>, k: int)
    requires
        0 <= k <= widths.len(),
        forall|i: int| 0 <= i < widths.len() ==> #[trigger] widths[i] >= 0,
    ensures
        0 <= total(widths.take(k)) <= total(widths),
    decreases widths.len(),
{
    if k == widths.len() {
        assert(widths.take(k) =~= widths);
        if k > 0 {
            assert(widths.drop_last() =~= widths.take(k - 1));
            let init = widths.drop_last();
            assert forall|i: int| 0 <= i < init.len() implies #[trigger] init[i] >= 0 by {
                assert(init[i] == widths[i]);
            }
            lemma_total_part(init, k - 1);
            assert(init.take(k - 1) =~= init);
            assert(widths.last() == widths[k - 1]);
        }
    } else {
        let init = widths.drop_last();
        assert forall|i: int| 0 <= i < init.len() implies #[trigger] init[i] >= 0 by {
            assert(init[i] == widths[i]);
        }
        lemma_total_part(init, k);
        assert(init.take(k) =~= widths.take(k));
        assert(widths.last() == widths[widths.len() - 1]);
    }
}

/// Where the dividers between the columns stand, in a list that begins at `x`.
pub fn column_boundaries(widths: &Vec<u16>, x: u16) -> (r: Vec<u16>)
    requires
        x + total(width_values(widths@)) + widths@.len() <= u16::MAX,
    ensures
        width_values(r@) == boundaries_of(width_values(widths@), x as int),
{
    let ghost all = width_values(widths@);
    let mut out: Vec<u16> = Vec::new();
    let mut at: u16 = x;
    let mut i: usize = 0;
    let count: usize = widths.len();
    if count == 0 {
        assert(width_values(out@) =~= boundaries_of(all, x as int));
        return out;
    }
    assert(all.take(0) =~= Seq::<int>::empty());
    while i < count - 1
        invariant
            i <= count - 1,
            count == widths@.len(),
            all == width_values(widths@),
            x + total(all) + all.len() <= u16::MAX,
            out@.len() == i,
            at == x + total(all.take(i as int)) + i,
            forall|j: int| 0 <= j < i ==> #[trigger] out@[j] == boundary(all, x as int, j),
        decreases count - i,
    {
        proof {
            assert(all.take(i as int + 1).drop_last() =~= all.take(i as int));
            assert(all.take(i as int + 1).last() == widths@[i as int]);
            lemma_total_part(all, i as int + 1);
        }
        at = at + widths[i];
        out.push(at);
        at = at + 1;
        i = i + 1;
    }
    assert(width_values(out@) =~= boundaries_of(all, x as int));
    out
}

// ----- choosing columns -----

/// The columns after the one was switched on or off. The last one is never switched off.
pub open spec fn toggled(visible: Seq<Column>, column: Column) -> Seq<Column> {
    if visible.contains(column) {
        if visible.len() > 1 {
            visible.remove(first_of(visible, column))
        } else {
            visible
        }
    } else {
        visible.push(column)
    }
}

/// The first position of the column, or the number of columns where it is not among them.
pub open spec fn first_of(visible: Seq<Column>, column: Column) -> int
    decreases visible.len(),
{
    if visible.len() == 0 || visible[0] == column {
        0
    } else {
        1 + first_of(visible.skip(1), column)
    }
}

/// A position is none before the first.
pub proof fn lemma_first_of_bounds(visible: Seq<Column>, column: Column)
    ensures
        0 <= first_of(visible, column) <= visible.len(),
    decreases visible.len(),
{
    if visible.len() > 0 && visible[0] != column {
        lemma_first_of_bounds(visible.skip(1), column);
    }
}

/// What `first_of` says.
proof fn lemma_first_of(visible: Seq<Column>, column: Column, k: int)
    requires
        0 <= k <= visible.len(),
        forall|j: int| 0 <= j < k ==> #[trigger] visible[j] != column,
        k < visible.len() ==> visible[k] == column,
    ensures
        first_of(visible, column) == k,
    decreases visible.len(),
{
    if visible.len() > 0 && k > 0 {
        assert(visible[0] != column);
        let rest = visible.skip(1);
        assert forall|j: int| 0 <= j < k - 1 implies #[trigger] rest[j] != column by {
            assert(rest[j] == visible[j + 1]);
        }
        lemma_first_of(rest, column, k - 1);
    }
}

/// The first position of the column, or the number of columns where it is not among them.
pub fn find_column(visible: &Vec<Column>, column: Column) -> (r: usize)
    ensures
        r == first_of(visible@, column),
        r <= visible@.len(),
        (r < visible@.len()) == visible@.contains(column),
        r < visible@.len() ==> visible@[r as int] == column,
{
    let mut i: usize = 0;
    while i < visible.len()
        invariant
            i <= visible@.len(),
            forall|j: int| 0 <= j < i ==> #[trigger] visible@[j] != column,
        decreases visible@.len() - i,
    {
        if visible[i] == column {
            proof {
                lemma_first_of(visible@, column, i as int);
                assert(visible@.contains(visible@[i as int]));
            }
            return i;
        }
        i = i + 1;
    }
    proof {
        lemma_first_of(visible@, column, i as int);
    }
    i
}

/// Switches a column on or off. The last one is never switched off.
pub fn toggle_column(visible: &mut Vec<Column>, column: Column)
    ensures
        final(visible)@ == toggled(old(visible)@, column),
{
    let at: usize = find_column(visible, column);
    if at < visible.len() {
        if visible.len() > 1 {
            visible.remove(at);
        }
    } else {
        visible.push(column);
    }
}

/// Switching never leaves the list without columns.
pub proof fn law_a_column_is_always_shown(visible: Seq<Column>, column: Column)
    requires
        visible.len() > 0,
    ensures
        toggled(visible, column).len() > 0,
{
    if visible.contains(column) {
        let k = visible.index_of(column);
        lemma_first_of_contained(visible, column, k);
    }
}

/// A column that is among the others has a position among them.
proof fn lemma_first_of_contained(visible: Seq<Column>, column: Column, k: int)
    requires
        0 <= k < visible.len(),
        visible[k] == column,
    ensures
        0 <= first_of(visible, column) <= k,
    decreases visible.len(),
{
    if visible[0] != column {
        assert(visible.skip(1)[k - 1] == column);
        lemma_first_of_contained(visible.skip(1), column, k - 1);
    }
}

/// The columns with the one moved a place up or down, where there is a place.
pub open spec fn shifted(visible: Seq<Column>, column: Column, down: bool) -> Seq<Column> {
    let at = first_of(visible, column);
    let to = if down {
        at + 1
    } else {
        at - 1
    };
    if at < visible.len() && 0 <= to < visible.len() {
        visible.update(at, visible[to]).update(to, visible[at])
    } else {
        visible
    }
}

/// Moves a column a place up or down.
pub fn move_visible_column(visible: &mut Vec<Column>, column: Column, down: bool)
    ensures
        final(visible)@ == shifted(old(visible)@, column, down),
{
    let at: usize = find_column(visible, column);
    let n: usize = visible.len();
    if at < n {
        if down && at + 1 < n {
            let other = visible[at + 1];
            visible.set(at, other);
            visible.set(at + 1, column);
        } else if !down && at > 0 {
            let other = visible[at - 1];
            visible.set(at, other);
            visible.set(at - 1, column);
        }
    }
    assert(visible@ =~= shifted(old(visible)@, column, down));
}

/// The width of a column while its divider is dragged: as it was when the drag began, and as
/// many cells more as the pointer has moved, but the least width at least.
pub open spec fn dragged_width(start_width: u16, start_x: u16, x: u16) -> u16 {
    let width = start_width + (x - start_x);
    if width < MIN_COLUMN_WIDTH {
        MIN_COLUMN_WIDTH
    } else {
        width as u16
    }
}

/// The width of a column while its divider is dragged.
pub fn drag_width(start_width: u16, start_x: u16, x: u16) -> (r: u16)
    ensures
        r == dragged_width(start_width, start_x, x),
{
    let width: i32 = start_width as i32 + (x as i32 - start_x as i32);
    if width < MIN_COLUMN_WIDTH as i32 {
        MIN_COLUMN_WIDTH
    } else {
        #[verifier::truncate]
        (width as u16)
    }
}

} // verus!
