//! What a user's input stands for: a magnet link, an address to fetch, a path or a pattern;
//! and the addresses that interface names stand for.

use crate::config::home_folder;
use crate::order::in_sequence;
use crate::paths::{join_path, joined};
use crate::rss::to_ascii_lower;
use crate::text::{
    ascii_lower, chars_of, concat2, contains_char, has_prefix, is_empty, opt_str, opt_text, same,
    split, split_on, starts_with, string_of, texts, trim, trimmed,
};
use vstd::prelude::*;

verus! {

// ----- interfaces -----

/// `if_addrs::get_if_addrs`: the names of the machine's network interfaces with an address of
/// each. They are as the machine has them; nothing is promised.
#[verifier::external_body]
fn interface_list() -> (r: Option<Vec<(String, String)>>) {
    if_addrs::get_if_addrs().ok().map(
        |list| list.into_iter().map(|i| (i.name.clone(), i.addr.ip().to_string())).collect(),
    )
}

/// The interfaces that were listed; none where they could not be.
pub fn listed_interfaces(found: Option<Vec<(String, String)>>) -> (r: Vec<(String, String)>)
    ensures
        r@ == (match found {
            Some(list) => list@,
            None => Seq::empty(),
        }),
{
    match found {
        Some(list) => list,
        None => {
            let none: Vec<(String, String)> = Vec::new();
            assert(none@ =~= Seq::<(String, String)>::empty());
            none
        },
    }
}

/// The machine's network interfaces, as pairs of a name and an address; none where they cannot
/// be listed. What they are is up to the machine.
pub fn enumerate_interfaces() -> (r: Vec<(String, String)>) {
    listed_interfaces(interface_list())
}

/// The addresses of the interface, in order, among the first `n` entries.
pub open spec fn addresses_of(interfaces: Seq<(String, String)>, name: Seq<char>, n: int) -> Seq<
    Seq<char>,
>
    decreases n,
{
    if n <= 0 {
        Seq::empty()
    } else {
        let before = addresses_of(interfaces, name, n - 1);
        if interfaces[n - 1].0@ == name {
            before.push(interfaces[n - 1].1@)
        } else {
            before
        }
    }
}

/// The addresses that the first `n` entries stand for: an address for itself, a name for the
/// addresses of the interface. `literal` tells which entries are addresses.
pub open spec fn entry_addresses(
    entries: Seq<Seq<char>>,
    literal: Seq<bool>,
    interfaces: Seq<(String, String)>,
    n: int,
) -> Seq<Seq<char>>
    decreases n,
{
    if n <= 0 {
        Seq::empty()
    } else {
        let before = entry_addresses(entries, literal, interfaces, n - 1);
        let entry = trim(entries[n - 1]);
        if entry.len() == 0 {
            before
        } else if literal[n - 1] {
            before.push(entry)
        } else {
            before + addresses_of(interfaces, entry, interfaces.len() as int)
        }
    }
}

/// The addresses to listen on; all of them where the entries stand for none.
pub open spec fn listen_addresses(
    entries: Seq<Seq<char>>,
    literal: Seq<bool>,
    interfaces: Seq<(String, String)>,
) -> Seq<Seq<char>> {
    let found = entry_addresses(entries, literal, interfaces, entries.len() as int);
    if found.len() == 0 {
        seq!["0.0.0.0"@]
    } else {
        found
    }
}

/// The addresses that the entries stand for, given the machine's interfaces.
pub fn listen_ips(entries: &[String], literal: &[bool], interfaces: &Vec<(String, String)>) -> (r:
    Vec<String>)
    requires
        literal@.len() == entries@.len(),
    ensures
        texts(r@) == listen_addresses(texts(entries@), literal@, interfaces@),
{
    let ghost names = texts(entries@);
    let mut out: Vec<String> = Vec::new();
    let mut i: usize = 0;
    assert(texts(out@) =~= Seq::<Seq<char>>::empty());
    while i < entries.len()
        invariant
            i <= entries@.len(),
            literal@.len() == entries@.len(),
            names == texts(entries@),
            texts(out@) == entry_addresses(names, literal@, interfaces@, i as int),
        decreases entries@.len() - i,
    {
        let entry = trimmed(entries[i].as_str());
        assert(names[i as int] == entries@[i as int]@);
        if !is_empty(entry.as_str()) {
            let ghost before = texts(out@);
            if literal[i] {
                let ghost was = out@;
                out.push(entry);
                assert(texts(out@) =~= texts(was).push(entry@));
            } else {
                let mut k: usize = 0;
                assert(before + addresses_of(interfaces@, entry@, 0) =~= before);
                while k < interfaces.len()
                    invariant
                        k <= interfaces@.len(),
                        texts(out@) == before + addresses_of(interfaces@, entry@, k as int),
                    decreases interfaces@.len() - k,
                {
                    if same(interfaces[k].0.as_str(), entry.as_str()) {
                        let ghost was = out@;
                        out.push(interfaces[k].1.clone());
                        assert(texts(out@) =~= texts(was).push(interfaces@[k as int].1@));
                    }
                    assert(texts(out@) =~= before + addresses_of(interfaces@, entry@, k + 1));
                    k = k + 1;
                }
            }
        }
        i = i + 1;
    }
    if out.len() == 0 {
        assert(texts(out@).len() == 0);
        out.push("0.0.0.0".to_owned());
        assert(texts(out@) =~= seq!["0.0.0.0"@]);
    }
    out
}

/// The addresses that the entries stand for on this machine: interface names or addresses.
/// `literal` tells which entries are addresses.
pub fn resolve_listen_ips(entries: &[String], literal: &[bool]) -> (r: Vec<String>)
    requires
        literal@.len() == entries@.len(),
    ensures
        exists|interfaces: Seq<(String, String)>|
            texts(r@) == #[trigger] listen_addresses(texts(entries@), literal@, interfaces),
{
    let interfaces = enumerate_interfaces();
    listen_ips(entries, literal, &interfaces)
}

/// There is always an address to listen on.
pub proof fn law_listens_somewhere(
    entries: Seq<Seq<char>>,
    literal: Seq<bool>,
    interfaces: Seq<(String, String)>,
)
    ensures
        listen_addresses(entries, literal, interfaces).len() > 0,
        entries.len() == 0 ==> listen_addresses(entries, literal, interfaces) == seq!["0.0.0.0"@],
{
}

// ----- paths -----

/// `std::path::Path::exists`: whether something lies at the path now. Nothing is promised.
#[verifier::external_body]
pub(crate) fn path_exists(path: &str) -> (r: bool) {
    std::path::Path::new(path).exists()
}

/// An address with a scheme that can be fetched.
pub open spec fn fetchable(input: Seq<char>) -> bool {
    let low = ascii_lower(input);
    ||| has_prefix(low, "http://"@)
    ||| has_prefix(low, "https://"@)
    ||| has_prefix(low, "ftp://"@)
    ||| has_prefix(low, "sftp://"@)
}

/// Whether the input is an address that can be fetched.
pub fn is_url(input: &str) -> (r: bool)
    ensures
        r == fetchable(input@),
{
    let low = to_ascii_lower(input);
    starts_with(low.as_str(), "http://") || starts_with(low.as_str(), "https://") || starts_with(
        low.as_str(),
        "ftp://",
    ) || starts_with(low.as_str(), "sftp://")
}

/// A separator of path segments on any system.
pub open spec fn is_separator(c: char) -> bool {
    c == '/' || c == '\\'
}

/// A text without the separators it begins with.
pub open spec fn without_separators(s: Seq<char>) -> Seq<char>
    decreases s.len(),
{
    if s.len() > 0 && is_separator(s[0]) {
        without_separators(s.skip(1))
    } else {
        s
    }
}

/// The position of the first separator, or the length where there is none.
pub open spec fn first_separator(s: Seq<char>) -> int
    decreases s.len(),
{
    if s.len() == 0 || is_separator(s[0]) {
        0
    } else {
        1 + first_separator(s.skip(1))
    }
}

/// A line without the carriage return it ends with.
pub open spec fn without_return(line: Seq<char>) -> Seq<char> {
    if line.len() > 0 && line.last() == '\r' {
        line.drop_last()
    } else {
        line
    }
}

/// The home folder that the first matching of `lines[from..]` gives the user: the sixth of its
/// fields. Every line but the last was ended by a line feed.
pub open spec fn user_home(lines: Seq<Seq<char>>, from: int, user: Seq<char>) -> Option<Seq<char>>
    decreases lines.len() - from,
{
    if from < 0 || from >= lines.len() {
        None
    } else {
        let line = if from + 1 < lines.len() {
            without_return(lines[from])
        } else {
            lines[from]
        };
        let fields = split(line, ':');
        if fields.len() >= 6 && fields[0] == user {
            Some(fields[5])
        } else {
            user_home(lines, from + 1, user)
        }
    }
}

/// The home folder that the user table gives the user.
pub fn lookup_user_home(passwd: &str, username: &str) -> (r: Option<String>)
    ensures
        opt_text(r) == user_home(split(passwd@, '\n'), 0, username@),
{
    let lines = split_on(passwd, '\n');
    let ghost all = split(passwd@, '\n');
    let mut i: usize = 0;
    while i < lines.len()
        invariant
            i <= lines@.len(),
            texts(lines@) == all,
            all == split(passwd@, '\n'),
            user_home(all, 0, username@) == user_home(all, i as int, username@),
        decreases lines@.len() - i,
    {
        let chars = chars_of(lines[i].as_str());
        assert(all[i as int] == chars@);
        let n: usize = chars.len();
        let cut: usize = if i + 1 < lines.len() && n > 0 && chars[n - 1] == '\r' { n - 1 } else { n };
        let line = string_of(chars.as_slice(), 0, cut);
        proof {
            if cut == n {
                assert(line@ =~= chars@);
            } else {
                assert(line@ =~= chars@.drop_last());
            }
        }
        let fields = split_on(line.as_str(), ':');
        let ghost parts = texts(fields@);
        if fields.len() >= 6 {
            assert(parts[0] == fields@[0]@ && parts[5] == fields@[5]@);
            if same(fields[0].as_str(), username) {
                return Some(fields[5].clone());
            }
        }
        i = i + 1;
    }
    None
}

/// A path with a leading `~` or `~user` replaced by the home folder; `None` where the folder
/// of the user at hand is not known. The name of a user that is not known stays.
pub open spec fn tilde_expanded(
    input: Seq<char>,
    home: Option<Seq<char>>,
    passwd: Option<Seq<char>>,
) -> Option<Seq<char>> {
    if !has_prefix(input, "~"@) {
        Some(input)
    } else {
        let rest = input.skip(1);
        let cut = first_separator(rest);
        if cut == 0 {
            match home {
                Some(folder) => Some(joined(folder, without_separators(rest))),
                None => None,
            }
        } else {
            match passwd {
                Some(table) => match user_home(split(table, '\n'), 0, rest.take(cut)) {
                    Some(folder) => Some(joined(folder, without_separators(rest.skip(cut)))),
                    None => Some(input),
                },
                None => Some(input),
            }
        }
    }
}

/// What is left from the first separator on stays put when the front is cut off.
proof fn lemma_first_separator(s: Seq<char>, k: int)
    requires
        0 <= k <= s.len(),
        forall|j: int| 0 <= j < k ==> !is_separator(#[trigger] s[j]),
        k < s.len() ==> is_separator(s[k]),
    ensures
        first_separator(s) == k,
    decreases s.len(),
{
    if s.len() > 0 && k > 0 {
        assert(!is_separator(s[0]));
        let t = s.skip(1);
        assert forall|j: int| 0 <= j < k - 1 implies !is_separator(#[trigger] t[j]) by {
            assert(t[j] == s[j + 1]);
        }
        lemma_first_separator(t, k - 1);
    }
}

/// What follows the separators at position `from`.
fn after_separators(v: &Vec<char>, from: usize) -> (r: String)
    requires
        from <= v@.len(),
    ensures
        r@ == without_separators(v@.skip(from as int)),
{
    let n: usize = v.len();
    let mut k: usize = from;
    while k < n && (v[k] == '/' || v[k] == '\\')
        invariant
            from <= k <= n == v@.len(),
            without_separators(v@.skip(from as int)) == without_separators(v@.skip(k as int)),
        decreases n - k,
    {
        assert(v@.skip(k as int)[0] == v@[k as int]);
        assert(v@.skip(k as int).skip(1) =~= v@.skip(k as int + 1));
        k = k + 1;
    }
    let r = string_of(v.as_slice(), k, n);
    assert(r@ =~= v@.skip(k as int));
    r
}

/// Replaces a leading `~` or `~user`, given the home folder and the table of users.
pub fn expand_tilde_with(input: &str, home: Option<&str>, passwd: Option<&str>) -> (r: Option<
    String,
>)
    ensures
        opt_text(r) == tilde_expanded(
            input@,
            opt_str(home),
            opt_str(passwd),
        ),
{
    proof {
        reveal_strlit("~");
    }
    if !starts_with(input, "~") {
        return Some(input.to_owned());
    }
    let v = chars_of(input);
    let ghost rest = input@.skip(1);
    let n: usize = v.len();
    let mut cut: usize = 1;
    while cut < n && v[cut] != '/' && v[cut] != '\\'
        invariant
            1 <= cut <= n == v@.len(),
            v@ == input@,
            rest == input@.skip(1),
            forall|j: int| 0 <= j < cut - 1 ==> !is_separator(#[trigger] rest[j]),
        decreases n - cut,
    {
        assert(rest[cut - 1] == v@[cut as int]);
        cut = cut + 1;
    }
    proof {
        if cut < n {
            assert(rest[cut - 1] == v@[cut as int]);
        }
        lemma_first_separator(rest, cut - 1);
    }
    let suffix = after_separators(&v, cut);
    assert(v@.skip(cut as int) =~= rest.skip(cut - 1));
    if cut == 1 {
        assert(rest.skip(0) =~= rest);
        return match home {
            Some(folder) => Some(join_path(folder, suffix.as_str())),
            None => None,
        };
    }
    if let Some(table) = passwd {
        let user = string_of(v.as_slice(), 1, cut);
        assert(user@ =~= rest.take(cut - 1));
        if let Some(folder) = lookup_user_home(table, user.as_str()) {
            return Some(join_path(folder.as_str(), suffix.as_str()));
        }
    }
    Some(input.to_owned())
}

/// Replaces a leading `~` or `~user` by the home folder.
pub fn expand_tilde(input: &str, passwd: Option<&str>) -> (r: Option<String>)
    ensures
        exists|home: Option<Seq<char>>|
            opt_text(r) == #[trigger] tilde_expanded(
                input@,
                home,
                opt_str(passwd),
            ),
{
    let home = home_folder();
    match &home {
        Some(folder) => expand_tilde_with(input, Some(folder.as_str()), passwd),
        None => expand_tilde_with(input, None, passwd),
    }
}

/// A path with the drive letter that it begins with in uppercase.
pub open spec fn drive_folded(path: Seq<char>) -> Seq<char> {
    if path.len() >= 2 && 'a' <= path[0] <= 'z' && path[1] == ':' {
        path.update(0, ((path[0] as u32 - 32) as u32) as char)
    } else {
        path
    }
}

/// A path with the drive letter that it begins with in uppercase, so that both spellings of a
/// drive are one.
pub fn normalise_path(input: &str) -> (r: String)
    ensures
        r@ == drive_folded(input@),
{
    let v = chars_of(input);
    if v.len() >= 2 && 'a' <= v[0] && v[0] <= 'z' && v[1] == ':' {
        let code: u8 = v[0] as u8 - 32;
        let mut out = String::new();
        out.push(code as char);
        let rest = string_of(v.as_slice(), 1, v.len());
        out.append(rest.as_str());
        assert(out@ =~= drive_folded(input@));
        out
    } else {
        input.to_owned()
    }
}

/// Both spellings of a drive letter come to the same path.
pub proof fn law_drive_letters_fold(path: Seq<char>)
    ensures
        drive_folded(drive_folded(path)) == drive_folded(path),
        path.len() >= 2 && 'a' <= path[0] <= 'z' && path[1] == ':' ==> drive_folded(path)[0] as u32
            == path[0] as u32 - 32,
{
}

// ----- what an input stands for -----

/// Something that the session can add.
#[derive(Debug, Clone, PartialEq, Eq)]
pub enum Source {
    /// a magnet link
    Magnet(String),
    /// the path of a torrent file
    File(String),
}

/// What one line of input is treated as.
#[derive(Debug, Clone, PartialEq, Eq)]
pub enum SourceKind {
    /// a magnet link, taken as it is
    Magnet,
    /// an address that the daemon fetches
    Url,
    /// a path on this machine, which need not exist
    LocalPath(String),
    /// a pattern for paths on this machine
    LocalGlob(String),
}

/// What one line of input is treated as, as plain values.
pub enum KindView {
    Magnet,
    Url,
    LocalPath(Seq<char>),
    LocalGlob(Seq<char>),
}

impl View for SourceKind {
    type V = KindView;

    open spec fn view(&self) -> KindView {
        match *self {
            SourceKind::Magnet => KindView::Magnet,
            SourceKind::Url => KindView::Url,
            SourceKind::LocalPath(p) => KindView::LocalPath(p@),
            SourceKind::LocalGlob(p) => KindView::LocalGlob(p@),
        }
    }
}

/// An optional kind as plain values.
pub open spec fn kind_view(kind: Option<SourceKind>) -> Option<KindView> {
    match kind {
        Some(k) => Some(k@),
        None => None,
    }
}

/// The text holds a character that has a meaning in patterns.
pub open spec fn has_meta(s: Seq<char>) -> bool {
    s.contains('*') || s.contains('?') || s.contains('[')
}

/// The input with its home folder expanded, or as it is where that folder is not known.
pub open spec fn expanded_input(
    input: Seq<char>,
    home: Option<Seq<char>>,
    passwd: Option<Seq<char>>,
) -> Seq<char> {
    match tilde_expanded(trim(input), home, passwd) {
        Some(path) => path,
        None => trim(input),
    }
}

/// What an input stands for. `exists` tells whether something lies at the path that it
/// literally names.
pub open spec fn kind_of(
    input: Seq<char>,
    home: Option<Seq<char>>,
    passwd: Option<Seq<char>>,
    exists: bool,
) -> Option<KindView> {
    let bare = trim(input);
    if bare.len() == 0 {
        None
    } else if has_prefix(bare, "magnet:"@) {
        Some(KindView::Magnet)
    } else if fetchable(bare) {
        Some(KindView::Url)
    } else {
        let expanded = expanded_input(input, home, passwd);
        if !exists && has_meta(expanded) {
            Some(KindView::LocalGlob(expanded))
        } else {
            Some(KindView::LocalPath(drive_folded(expanded)))
        }
    }
}

/// Whether the expanded input is a path or a pattern. What literally exists is a path, so that
/// brackets in a real name are never taken for a pattern.
pub fn local_kind(expanded: String, exists: bool) -> (r: SourceKind)
    ensures
        r@ == (if !exists && has_meta(expanded@) {
            KindView::LocalGlob(expanded@)
        } else {
            KindView::LocalPath(drive_folded(expanded@))
        }),
{
    if !exists && (contains_char(expanded.as_str(), '*') || contains_char(expanded.as_str(), '?')
        || contains_char(expanded.as_str(), '[')) {
        SourceKind::LocalGlob(expanded)
    } else {
        SourceKind::LocalPath(normalise_path(expanded.as_str()))
    }
}

/// What one line of input is treated as; `None` for a blank one. `passwd` is the table of
/// users, where it can be read.
pub fn classify(input: &str, passwd: Option<&str>) -> (r: Option<SourceKind>)
    ensures
        exists|home: Option<Seq<char>>, exists_now: bool|
            kind_view(r) == #[trigger] kind_of(
                input@,
                home,
                opt_str(passwd),
                exists_now,
            ),
{
    let ghost table = opt_str(passwd);
    let bare = trimmed(input);
    if is_empty(bare.as_str()) {
        assert(kind_view(None) == kind_of(input@, None, table, false));
        return None;
    }
    if starts_with(bare.as_str(), "magnet:") {
        assert(kind_view(Some(SourceKind::Magnet)) == kind_of(input@, None, table, false));
        return Some(SourceKind::Magnet);
    }
    if is_url(bare.as_str()) {
        assert(kind_view(Some(SourceKind::Url)) == kind_of(input@, None, table, false));
        return Some(SourceKind::Url);
    }
    let tilde = expand_tilde(bare.as_str(), passwd);
    let ghost home = choose|home: Option<Seq<char>>|
        opt_text(tilde) == #[trigger] tilde_expanded(bare@, home, table);
    let expanded = match tilde {
        Some(path) => path,
        None => bare,
    };
    let literal = normalise_path(expanded.as_str());
    let exists_now = path_exists(literal.as_str());
    let kind = local_kind(expanded, exists_now);
    assert(kind_view(Some(kind)) == kind_of(input@, home, table, exists_now));
    Some(kind)
}

/// What is to be done to turn an input into something that can be added.
#[derive(Debug, Clone, PartialEq, Eq)]
pub enum Resolution {
    /// it can be added
    Ready(Source),
    /// the address is to be fetched into a file, which can then be added
    Fetch(String),
    /// it cannot be added, for that reason
    Refused(String),
}

/// What becomes of an input that stands for `kind`; `exists` tells whether something lies at
/// its path.
pub open spec fn resolved_as(
    kind: Option<KindView>,
    input: Seq<char>,
    exists: bool,
    r: Resolution,
) -> bool {
    match kind {
        None => r matches Resolution::Refused(why) && why@ == "empty source"@,
        Some(KindView::Magnet) => r matches Resolution::Ready(Source::Magnet(link)) && link@
            == trim(input),
        Some(KindView::Url) => r matches Resolution::Fetch(url) && url@ == trim(input),
        Some(KindView::LocalPath(path)) => if exists {
            r matches Resolution::Ready(Source::File(p)) && p@ == path
        } else {
            r matches Resolution::Refused(why) && why@ == "file not found: "@ + path
        },
        Some(KindView::LocalGlob(_)) => r matches Resolution::Refused(why) && why@
            == "glob patterns must be expanded by the client"@,
    }
}

/// What is to be done with an input that stands for `kind`.
pub fn resolve_kind(kind: Option<SourceKind>, input: &str, exists: bool) -> (r: Resolution)
    ensures
        resolved_as(kind_view(kind), input@, exists, r),
{
    match kind {
        None => Resolution::Refused("empty source".to_owned()),
        Some(SourceKind::Magnet) => Resolution::Ready(Source::Magnet(trimmed(input))),
        Some(SourceKind::Url) => Resolution::Fetch(trimmed(input)),
        Some(SourceKind::LocalPath(path)) => {
            if exists {
                Resolution::Ready(Source::File(path))
            } else {
                Resolution::Refused(concat2("file not found: ", path.as_str()))
            }
        },
        Some(SourceKind::LocalGlob(_)) => Resolution::Refused(
            "glob patterns must be expanded by the client".to_owned(),
        ),
    }
}

/// Classifies an input and tells what is to be done to add it. Patterns are the client's to
/// expand and are refused.
pub fn resolve(input: &str, passwd: Option<&str>) -> (r: Resolution)
    ensures
        exists|home: Option<Seq<char>>, first: bool, then_exists: bool| #[trigger]
            resolved_as(kind_of(input@, home, opt_str(passwd), first), input@, then_exists, r),
{
    let kind = classify(input, passwd);
    let found = match &kind {
        Some(SourceKind::LocalPath(path)) => path_exists(path.as_str()),
        _ => false,
    };
    let ghost (home, first) = choose|home: Option<Seq<char>>, first: bool|
        kind_view(kind) == #[trigger] kind_of(input@, home, opt_str(passwd), first);
    let r = resolve_kind(kind, input, found);
    assert(resolved_as(kind_of(input@, home, opt_str(passwd), first), input@, found, r));
    r
}

/// A path that exists is never taken for a pattern.
pub proof fn law_existing_path_beats_pattern(
    input: Seq<char>,
    home: Option<Seq<char>>,
    passwd: Option<Seq<char>>,
)
    ensures
        !(kind_of(input, home, passwd, true) matches Some(KindView::LocalGlob(_))),
{
}

/// Classifying and resolving agree: a magnet link is passed on, an address is fetched, an
/// existing path is added, and what is blank, missing or a pattern is refused.
pub proof fn law_resolve_agrees_with_classify(
    kind: Option<KindView>,
    input: Seq<char>,
    exists: bool,
    r: Resolution,
)
    requires
        resolved_as(kind, input, exists, r),
    ensures
        (r matches Resolution::Ready(Source::Magnet(_))) <==> kind == Some(KindView::Magnet),
        (r matches Resolution::Fetch(_)) <==> kind == Some(KindView::Url),
        (r matches Resolution::Ready(Source::File(_))) ==> kind matches Some(KindView::LocalPath(_)),
        kind matches Some(KindView::LocalGlob(_)) ==> r matches Resolution::Refused(_),
{
}

// ----- patterns -----

/// Why a text is no pattern for paths, where it is none.
pub uninterp spec fn glob_failure(pattern: Seq<char>) -> Option<Seq<char>>;

/// The entries that could be read, in order.
pub open spec fn readable(walk: Seq<Option<String>>) -> Seq<Seq<char>>
    decreases walk.len(),
{
    if walk.len() == 0 {
        Seq::empty()
    } else {
        match walk.last() {
            Some(path) => readable(walk.drop_last()).push(path@),
            None => readable(walk.drop_last()),
        }
    }
}

/// A character that has a meaning in patterns.
pub open spec fn is_meta(c: char) -> bool {
    c == '*' || c == '?' || c == '['
}

/// A character that ends a folder's part of a pattern on some system.
pub open spec fn ends_part(c: char) -> bool {
    is_separator(c) || c == ':'
}

/// The pattern asks for entries of one folder only: no part of it but the last has
/// metacharacters, and the last does not descend and does not ask for hidden entries.
pub open spec fn asks_one_folder(p: Seq<char>) -> bool {
    &&& forall|i: int, j: int|
        0 <= i < j < p.len() && is_meta(#[trigger] p[i]) ==> !ends_part(#[trigger] p[j])
    &&& forall|i: int| 0 < i < p.len() ==> !(p[i - 1] == '*' && #[trigger] p[i] == '*')
    &&& forall|i: int|
        0 <= i < p.len() && #[trigger] p[i] == '.' && (i == 0 || ends_part(p[i - 1])) ==> exists|
            j: int,
        |
            i < j < p.len() && ends_part(#[trigger] p[j])
}

/// `glob::glob`: walks the paths that match the pattern, an entry that cannot be read as
/// `None`. Whether the pattern is refused, and with which message, depends on the pattern
/// alone. What the walk finds is as the disk has it; entries of one folder come in the order of
/// their names. Of the order over several folders nothing is promised.
#[verifier::external_body]
fn glob_walk(pattern: &str) -> (r: Result<Vec<Option<String>>, String>)
    ensures
        r is Err <==> glob_failure(pattern@) is Some,
        r matches Err(why) ==> glob_failure(pattern@) == Some(why@),
        r matches Ok(walk) ==> asks_one_folder(pattern@) ==> in_sequence(readable(walk@)),
{
    glob::glob(pattern).map_err(|e| e.to_string()).map(
        |walk| walk.map(|p| p.ok().map(|p| p.to_string_lossy().to_string())).collect(),
    )
}

/// The entries of a walk that could be read.
pub fn readable_entries(walk: Vec<Option<String>>) -> (r: Vec<String>)
    ensures
        texts(r@) == readable(walk@),
{
    let mut out: Vec<String> = Vec::new();
    let mut i: usize = 0;
    assert(walk@.take(0) =~= Seq::<Option<String>>::empty());
    assert(texts(out@) =~= Seq::<Seq<char>>::empty());
    while i < walk.len()
        invariant
            i <= walk@.len(),
            texts(out@) == readable(walk@.take(i as int)),
        decreases walk@.len() - i,
    {
        proof {
            assert(walk@.take(i as int + 1).drop_last() =~= walk@.take(i as int));
        }
        if let Some(path) = &walk[i] {
            let ghost before = out@;
            out.push(path.clone());
            assert(texts(out@) =~= texts(before).push(path@));
        }
        i = i + 1;
    }
    assert(walk@.take(walk@.len() as int) =~= walk@);
    out
}

/// Expands a pattern against the disk. Entries that cannot be read are left out; folders are
/// kept, for the daemon to refuse by name. The entries of one folder are in alphabetical order.
pub fn expand_glob(pattern: &str) -> (r: Result<Vec<String>, String>)
    ensures
        match r {
            Ok(list) => glob_failure(pattern@) is None && (asks_one_folder(pattern@) ==> in_sequence(
                texts(list@),
            )),
            Err(why) => glob_failure(pattern@) matches Some(cause) && why@
                == "bad glob pattern: "@ + cause,
        },
{
    match glob_walk(pattern) {
        Ok(walk) => Ok(readable_entries(walk)),
        Err(cause) => Err(concat2("bad glob pattern: ", cause.as_str())),
    }
}

} // verus!
