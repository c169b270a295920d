//! What the command line prints.

use crate::text::{chars_of, concat2, concat4, decimal, opt_text, same, string_of};
use vstd::prelude::*;

verus! {

// ----- what is taken from bytesize, chrono and unicode_width -----

/// A number of bytes as people read it, with binary units or with decimal ones.
pub uninterp spec fn byte_text(bytes: u64, binary: bool) -> Seq<char>;

/// `bytesize::to_string`: a function of its arguments; a number below the first unit is written
/// out in bytes.
#[verifier::external_body]
pub(crate) fn bytes_to_text(bytes: u64, binary: bool) -> (r: String)
    ensures
        r@ == byte_text(bytes, binary),
        bytes < (if binary { 1024u64 } else { 1000u64 }) ==> r@ == decimal(bytes as int) + " B"@,
{
    bytesize::to_string(bytes, binary)
}

/// How times are written.
pub open spec fn time_format() -> Seq<char> {
    "%Y-%m-%d %H:%M:%S"@
}

/// A time in seconds since 1970, written out in that form; `None` where it is out of range.
pub uninterp spec fn time_text(seconds: i64, format: Seq<char>) -> Option<Seq<char>>;

/// `chrono::DateTime::from_timestamp` and `DateTime::format`: the time in UTC in the form that
/// the library uses, where it is in chrono's range.
#[verifier::external_body]
fn time_to_text(seconds: i64, format: &str) -> (r: Option<String>)
    requires
        format@ == time_format(),
    ensures
        opt_text(r) == time_text(seconds, format@),
{
    chrono::DateTime::from_timestamp(seconds, 0).map(|time| time.format(format).to_string())
}

/// How many cells a character takes on screen; `None` for control characters.
pub uninterp spec fn char_cells(c: char) -> Option<usize>;

/// `unicode_width::UnicodeWidthChar::width`: a function of the character; printable ASCII
/// characters and the ellipsis take one cell, and none takes more than three.
#[verifier::external_body]
fn char_width(c: char) -> (r: Option<usize>)
    ensures
        r == char_cells(c),
        r matches Some(n) ==> n <= 3,
        ' ' <= c <= '~' ==> r == Some(1usize),
        c == '\u{2026}' ==> r == Some(1usize),
{
    unicode_width::UnicodeWidthChar::width(c)
}

// ----- widths -----

/// How many cells a character takes on screen.
pub open spec fn cells_of(c: char) -> int {
    match char_cells(c) {
        Some(n) => n as int,
        None => 0,
    }
}

/// How many cells a text takes on screen.
pub open spec fn cells(s: Seq<char>) -> int
    decreases s.len(),
{
    if s.len() == 0 {
        0
    } else {
        cells(s.drop_last()) + cells_of(s.last())
    }
}

/// A text takes no negative number of cells, and its parts add up.
pub proof fn lemma_cells(a: Seq<char>, b: Seq<char>)
    ensures
        cells(a) >= 0,
        cells(a + b) == cells(a) + cells(b),
    decreases b.len(), a.len(),
{
    if b.len() == 0 {
        assert(a + b =~= a);
        if a.len() > 0 {
            lemma_cells(a.drop_last(), b);
        }
    } else {
        assert((a + b).drop_last() =~= a + b.drop_last());
        assert((a + b).last() == b.last());
        lemma_cells(a, b.drop_last());
    }
}

/// How many characters of `s` fit into the budget, from the first on.
pub open spec fn fitting(s: Seq<char>, budget: int) -> int
    decreases s.len(),
{
    if s.len() == 0 || cells_of(s[0]) > budget {
        0
    } else {
        1 + fitting(s.skip(1), budget - cells_of(s[0]))
    }
}

/// A text cut to a number of cells, with an ellipsis where something was cut off.
pub open spec fn truncated(s: Seq<char>, max_cells: int) -> Seq<char> {
    if cells(s) <= max_cells {
        s
    } else {
        let budget = if max_cells > 0 {
            max_cells - 1
        } else {
            0
        };
        s.take(fitting(s, budget)).push('\u{2026}')
    }
}

/// How many cells a text takes on screen, where that is at most `limit`.
fn cells_within(s: &Vec<char>, limit: usize) -> (r: Option<usize>)
    ensures
        r is Some <==> cells(s@) <= limit,
        r matches Some(n) ==> n == cells(s@),
{
    let mut total: usize = 0;
    let mut i: usize = 0;
    assert(s@.take(0) =~= Seq::<char>::empty());
    while i < s.len()
        invariant
            i <= s@.len(),
            total == cells(s@.take(i as int)),
            total <= limit,
        decreases s@.len() - i,
    {
        let width: usize = match char_width(s[i]) {
            Some(n) => n,
            None => 0,
        };
        proof {
            assert(s@.take(i as int + 1).drop_last() =~= s@.take(i as int));
            lemma_cells(s@.take(i as int + 1), s@.skip(i as int + 1));
            lemma_cells(s@.skip(i as int + 1), Seq::empty());
            assert(s@.take(i as int + 1) + s@.skip(i as int + 1) =~= s@);
        }
        if width > limit - total {
            return None;
        }
        total = total + width;
        i = i + 1;
    }
    assert(s@.take(s@.len() as int) =~= s@);
    Some(total)
}

/// How many cells a text takes on screen; no more than a machine number holds.
pub fn display_width(text: &str) -> (r: usize)
    ensures
        r == (if cells(text@) <= usize::MAX {
            cells(text@)
        } else {
            usize::MAX as int
        }),
{
    let v = chars_of(text);
    match cells_within(&v, usize::MAX) {
        Some(n) => n,
        None => usize::MAX,
    }
}

/// Cuts a text to a number of cells. Wide and combining characters count as they are shown; an
/// ellipsis tells that something was cut off.
pub fn truncate_to_width(text: &str, max_cells: usize) -> (r: String)
    ensures
        r@ == truncated(text@, max_cells as int),
        max_cells >= 1 ==> cells(r@) <= max_cells,
{
    let v = chars_of(text);
    if cells_within(&v, max_cells).is_some() {
        return text.to_owned();
    }
    let budget: usize = if max_cells > 0 { max_cells - 1 } else { 0 };
    let mut used: usize = 0;
    let mut i: usize = 0;
    assert(v@.skip(0) =~= v@);
    while i < v.len()
        invariant_except_break
            i <= v@.len(),
            used <= budget,
            v@ == text@,
            fitting(v@, budget as int) == i + fitting(v@.skip(i as int), budget - used),
        ensures
            i <= v@.len(),
            v@ == text@,
            fitting(v@, budget as int) == i,
        decreases v@.len() - i,
    {
        let width: usize = match char_width(v[i]) {
            Some(n) => n,
            None => 0,
        };
        proof {
            assert(v@.skip(i as int)[0] == v@[i as int]);
            assert(v@.skip(i as int).skip(1) =~= v@.skip(i as int + 1));
        }
        if width > budget - used {
            break;
        }
        used = used + width;
        i = i + 1;
    }
    let mut out = string_of(v.as_slice(), 0, i);
    assert(out@ =~= text@.take(i as int));
    let ellipsis = '\u{2026}';
    let _cells = char_width(ellipsis);
    out.push(ellipsis);
    proof {
        lemma_fitting(text@, budget as int);
        assert(out@.drop_last() =~= text@.take(i as int));
    }
    out
}

/// What fits, fits.
proof fn lemma_fitting(s: Seq<char>, budget: int)
    requires
        budget >= 0,
    ensures
        0 <= fitting(s, budget) <= s.len(),
        cells(s.take(fitting(s, budget))) <= budget,
    decreases s.len(),
{
    if s.len() == 0 || cells_of(s[0]) > budget {
        assert(s.take(0) =~= Seq::<char>::empty());
    } else {
        let rest = s.skip(1);
        let left = budget - cells_of(s[0]);
        lemma_fitting(rest, left);
        let n = fitting(rest, left);
        assert(s.take(n + 1) =~= seq![s[0]] + rest.take(n));
        lemma_cells(seq![s[0]], rest.take(n));
        assert(seq![s[0]].drop_last() =~= Seq::<char>::empty());
        assert(cells(Seq::<char>::empty()) == 0);
        assert(cells(seq![s[0]]) == cells_of(s[0]));
    }
}

// ----- numbers and times -----

/// A number of bytes as people read it.
pub fn format_bytes(bytes: i64) -> (r: String)
    ensures
        r@ == byte_text(bytes as u64, true),
        0 <= bytes < 1024 ==> r@ == decimal(bytes as int) + " B"@,
{
    let unsigned: u64 = #[verifier::truncate]
    (bytes as u64);
    bytes_to_text(unsigned, true)
}

/// A rate as people read it.
pub open spec fn rate_text(rate: i64) -> Seq<char> {
    if rate == 0 {
        "0 B/s"@
    } else {
        byte_text(rate as u64, true) + "/s"@
    }
}

/// A rate as people read it.
pub fn format_rate(bytes_per_sec: i64) -> (r: String)
    ensures
        r@ == rate_text(bytes_per_sec),
{
    if bytes_per_sec == 0 {
        return "0 B/s".to_owned();
    }
    let unsigned: u64 = #[verifier::truncate]
    (bytes_per_sec as u64);
    let size = bytes_to_text(unsigned, true);
    concat2(size.as_str(), "/s")
}

/// A time as it is shown; a time of 0 is none.
pub open spec fn shown_time(timestamp: i64) -> Seq<char> {
    if timestamp == 0 {
        "N/A"@
    } else {
        match time_text(timestamp, time_format()) {
            Some(text) => text,
            None => "N/A"@,
        }
    }
}

/// A time as it is shown.
pub fn format_timestamp(timestamp: i64) -> (r: String)
    ensures
        r@ == shown_time(timestamp),
{
    if timestamp == 0 {
        return "N/A".to_owned();
    }
    match time_to_text(timestamp, "%Y-%m-%d %H:%M:%S") {
        Some(text) => text,
        None => "N/A".to_owned(),
    }
}

/// What the notification of a finished torrent says.
pub fn notification_body(name: &str, size: u64) -> (r: String)
    ensures
        r@ == name@ + " ("@ + byte_text(size, false) + ")"@,
{
    let text = bytes_to_text(size, false);
    concat4(name, " (", text.as_str(), ")")
}

// ----- columns -----

/// `n` times the character.
pub open spec fn repeated(c: char, n: int) -> Seq<char> {
    Seq::new(
        if n > 0 {
            n as nat
        } else {
            0nat
        },
        |i: int| c,
    )
}

/// `n` times the character.
pub fn repeat_char(c: char, n: usize) -> (r: String)
    ensures
        r@ == repeated(c, n as int),
{
    let mut out = String::new();
    let mut i: usize = 0;
    while i < n
        invariant
            i <= n,
            out@ == repeated(c, i as int),
        decreases n - i,
    {
        out.push(c);
        assert(out@ =~= repeated(c, i + 1));
        i = i + 1;
    }
    assert(out@ =~= repeated(c, n as int));
    out
}

/// The text with blanks behind it, up to that many characters.
pub open spec fn padded(s: Seq<char>, n: int) -> Seq<char> {
    s + repeated(' ', n - s.len())
}

/// The text with blanks before it, up to that many characters.
pub open spec fn aligned(s: Seq<char>, n: int) -> Seq<char> {
    repeated(' ', n - s.len()) + s
}

/// The text with blanks behind it, up to that many characters.
pub fn pad(s: &str, n: usize) -> (r: String)
    ensures
        r@ == padded(s@, n as int),
{
    let have: usize = s.unicode_len();
    let blanks = repeat_char(' ', if have < n { n - have } else { 0 });
    assert(blanks@ =~= repeated(' ', n - s@.len()));
    concat2(s, blanks.as_str())
}

/// The text with blanks before it, up to that many characters.
pub fn align(s: &str, n: usize) -> (r: String)
    ensures
        r@ == aligned(s@, n as int),
{
    let have: usize = s.unicode_len();
    let blanks = repeat_char(' ', if have < n { n - have } else { 0 });
    assert(blanks@ =~= repeated(' ', n - s@.len()));
    concat2(blanks.as_str(), s)
}

/// A column of a table is as wide as it should be, or wider where its text is.
pub proof fn law_padding_reaches_the_width(s: Seq<char>, n: int)
    ensures
        padded(s, n).len() == (if s.len() < n {
            n
        } else {
            s.len() as int
        }),
        aligned(s, n).len() == padded(s, n).len(),
        n <= s.len() ==> padded(s, n) == s && aligned(s, n) == s,
{
    assert(n <= s.len() ==> padded(s, n) =~= s && aligned(s, n) =~= s);
}

/// A bar of that width with so many of its cells filled, behind the share that it shows.
pub open spec fn bar_text(percent: Seq<char>, filled: int, width: int) -> Seq<char> {
    let full = if filled < width {
        filled
    } else {
        width
    };
    percent + "% ["@ + (repeated('\u{2588}', full) + repeated('\u{2591}', width - full)) + "]"@
}

/// A bar of that width with so many of its cells filled, behind the share that it shows.
pub fn progress_bar(percent: &str, filled: usize, width: usize) -> (r: String)
    ensures
        r@ == bar_text(percent@, filled as int, width as int),
{
    let full: usize = if filled < width { filled } else { width };
    let done = repeat_char('\u{2588}', full);
    let left = repeat_char('\u{2591}', width - full);
    let bar = concat2(done.as_str(), left.as_str());
    concat4(percent, "% [", bar.as_str(), "]")
}

/// The two letters that stand for a state.
pub open spec fn state_code(state: Seq<char>) -> Seq<char> {
    if state == "downloading"@ {
        "DL"@
    } else if state == "seeding"@ {
        "SE"@
    } else if state == "finished"@ {
        "FN"@
    } else if state == "downloading_metadata"@ {
        "MD"@
    } else if state == "checking_files"@ {
        "CK"@
    } else if state == "checking_resume_data"@ {
        "CR"@
    } else if state == "allocating"@ {
        "AL"@
    } else if state.len() > 2 {
        state.take(2)
    } else {
        state
    }
}

/// The two letters that stand for a state; those that a state of another name begins with.
pub fn format_state(state: &str) -> (r: String)
    ensures
        r@ == state_code(state@),
{
    if same(state, "downloading") {
        return "DL".to_owned();
    }
    if same(state, "seeding") {
        return "SE".to_owned();
    }
    if same(state, "finished") {
        return "FN".to_owned();
    }
    if same(state, "downloading_metadata") {
        return "MD".to_owned();
    }
    if same(state, "checking_files") {
        return "CK".to_owned();
    }
    if same(state, "checking_resume_data") {
        return "CR".to_owned();
    }
    if same(state, "allocating") {
        return "AL".to_owned();
    }
    let v = chars_of(state);
    let n: usize = if v.len() > 2 { 2 } else { v.len() };
    let out = string_of(v.as_slice(), 0, n);
    assert(out@ =~= if state@.len() > 2 { state@.take(2) } else { state@ });
    out
}

} // verus!
