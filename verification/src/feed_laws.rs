//! What is read from a feed, by the pieces of its document.

use crate::rss::{
    after_piece, attribute, attributes_in, ends_path, is_address_path, item_key, read_pieces,
    regex_matches, tag_attributes, tag_name, torrent_address, wanted_items, Capture, ItemView,
    RssSeen, XmlPiece,
};
use crate::text::{
    ascii_lower, has_prefix, has_suffix, lemma_split_around, lemma_split_nonempty,
    lemma_split_whole, split, trim,
};
use vstd::prelude::*;
use vstd::utf8::{
    decode_utf8, encode_utf8, encode_utf8_decode_utf8, encode_utf8_valid_utf8, valid_utf8,
};

verus! {

// ----- tags -----

/// The piece opens a tag, or opens and closes it at once.
pub open spec fn opens(p: XmlPiece, name: Seq<char>) -> bool {
    match p {
        XmlPiece::Start(raw, _) => tag_name(raw) == name,
        XmlPiece::Empty(raw, _) => tag_name(raw) == name,
        _ => false,
    }
}

/// The piece opens a tag that has content.
pub open spec fn starts(p: XmlPiece, name: Seq<char>) -> bool {
    p matches XmlPiece::Start(raw, _) && tag_name(raw) == name
}

/// The piece closes a tag.
pub open spec fn closes(p: XmlPiece, name: Seq<char>) -> bool {
    p matches XmlPiece::End(raw) && tag_name(raw) == name
}

/// The piece opens an entry of a feed.
pub open spec fn starts_entry(p: XmlPiece) -> bool {
    starts(p, "item"@) || starts(p, "entry"@)
}

/// The piece closes an entry of a feed.
pub open spec fn closes_entry(p: XmlPiece) -> bool {
    closes(p, "item"@) || closes(p, "entry"@)
}

/// The document ends with the piece.
pub open spec fn ends_document(p: XmlPiece) -> bool {
    p is Eof || p is Malformed
}

/// The attribute at `x` is the first readable one of that name, and has that value.
pub open spec fn is_first_of_name(
    list: Seq<Option<(Seq<u8>, Seq<u8>)>>,
    x: int,
    key: Seq<u8>,
    value: Seq<char>,
) -> bool {
    &&& 0 <= x < list.len()
    &&& list[x] is Some
    &&& (list[x]->0).0 == key
    &&& valid_utf8((list[x]->0).1)
    &&& decode_utf8((list[x]->0).1) == value
    &&& none_of_name(list.take(x), key)
}

/// No readable attribute has that name.
pub open spec fn none_of_name(list: Seq<Option<(Seq<u8>, Seq<u8>)>>, key: Seq<u8>) -> bool {
    forall|y: int|
        0 <= y < list.len() ==> (#[trigger] list[y] is None || (list[y]->0).0 != key)
}

/// What follows the name of a tag gives the attribute that value.
pub open spec fn gives_attribute(raw: Seq<u8>, key: Seq<char>, value: Seq<char>) -> bool {
    &&& valid_utf8(raw)
    &&& exists|x: int|
        #[trigger] is_first_of_name(tag_attributes(decode_utf8(raw)), x, encode_utf8(key), value)
}

/// What follows the name of a tag names no such attribute.
pub open spec fn lacks_attribute(raw: Seq<u8>, key: Seq<char>) -> bool {
    valid_utf8(raw) ==> none_of_name(tag_attributes(decode_utf8(raw)), encode_utf8(key))
}

/// The piece opens a tag of that name with that value of the attribute.
pub open spec fn opens_with(p: XmlPiece, name: Seq<char>, key: Seq<char>, value: Seq<char>) -> bool {
    match p {
        XmlPiece::Start(raw, rest) => tag_name(raw) == name && gives_attribute(rest, key, value),
        XmlPiece::Empty(raw, rest) => tag_name(raw) == name && gives_attribute(rest, key, value),
        _ => false,
    }
}

/// The first attribute of a name is the one that is read.
proof fn lemma_attribute_found(
    list: Seq<Option<(Seq<u8>, Seq<u8>)>>,
    key: Seq<u8>,
    x: int,
    value: Seq<char>,
)
    requires
        is_first_of_name(list, x, key, value),
    ensures
        attribute(list, key) == Some(value),
    decreases x,
{
    if x > 0 {
        let rest = list.skip(1);
        assert(list.take(x)[0] == list[0]);
        assert(list[0] is None || (list[0]->0).0 != key);
        assert forall|y: int| 0 <= y < x - 1 implies (#[trigger] rest.take(x - 1)[y] is None || (
        rest.take(x - 1)[y]->0).0 != key) by {
            assert(rest.take(x - 1)[y] == list.take(x)[y + 1]);
        }
        lemma_attribute_found(rest, key, x - 1, value);
    }
}

/// An attribute that is not there is not read.
proof fn lemma_attribute_missing(list: Seq<Option<(Seq<u8>, Seq<u8>)>>, key: Seq<u8>)
    requires
        none_of_name(list, key),
    ensures
        attribute(list, key) is None,
    decreases list.len(),
{
    if list.len() > 0 {
        assert(list[0] is None || (list[0]->0).0 != key);
        let rest = list.skip(1);
        assert forall|y: int| 0 <= y < rest.len() implies (#[trigger] rest[y] is None || (
        rest[y]->0).0 != key) by {
            assert(rest[y] == list[y + 1]);
        }
        lemma_attribute_missing(rest, key);
    }
}

/// What a tag gives an attribute is what is read of it.
proof fn lemma_gives_attribute(raw: Seq<u8>, key: Seq<char>, value: Seq<char>)
    requires
        gives_attribute(raw, key, value),
    ensures
        attribute(attributes_in(raw), encode_utf8(key)) == Some(value),
{
    let list = tag_attributes(decode_utf8(raw));
    let x = choose|x: int| #[trigger] is_first_of_name(list, x, encode_utf8(key), value);
    lemma_attribute_found(list, encode_utf8(key), x, value);
}

/// The names of tags go without their prefixes and whatever the case of their letters.
pub proof fn law_tag_names_go_without_prefixes(prefix: Seq<char>, name: Seq<char>)
    requires
        !name.contains(':'),
    ensures
        tag_name(encode_utf8(prefix.push(':') + name)) == ascii_lower(name),
        tag_name(encode_utf8(name)) == ascii_lower(name),
{
    let whole = prefix.push(':') + name;
    encode_utf8_decode_utf8(whole);
    encode_utf8_decode_utf8(name);
    encode_utf8_valid_utf8(whole);
    encode_utf8_valid_utf8(name);
    lemma_split_around(prefix, ':', name);
    lemma_split_whole(name, ':');
    lemma_split_nonempty(prefix, ':');
    assert((split(prefix, ':') + split(name, ':')).last() == name);
}

// ----- entries -----

/// The tags that are read have different names.
proof fn lemma_names_differ()
    ensures
        "enclosure"@ != "item"@,
        "enclosure"@ != "entry"@,
        "enclosure"@ != "title"@,
        "enclosure"@ != "link"@,
        "enclosure"@ != "guid"@,
        "enclosure"@ != "id"@,
        "enclosure"@ != "magneturi"@,
        "item"@ != "entry"@,
        "item"@ != "title"@,
        "item"@ != "link"@,
        "item"@ != "guid"@,
        "item"@ != "id"@,
        "item"@ != "magneturi"@,
        "entry"@ != "title"@,
        "entry"@ != "link"@,
        "entry"@ != "guid"@,
        "entry"@ != "id"@,
        "entry"@ != "magneturi"@,
        "title"@ != "link"@,
        "title"@ != "guid"@,
        "title"@ != "id"@,
        "title"@ != "magneturi"@,
        "link"@ != "guid"@,
        "link"@ != "id"@,
        "link"@ != "magneturi"@,
        "guid"@ != "id"@,
        "guid"@ != "magneturi"@,
        "id"@ != "magneturi"@,
{
    reveal_strlit("enclosure");
    reveal_strlit("item");
    reveal_strlit("entry");
    reveal_strlit("title");
    reveal_strlit("link");
    reveal_strlit("guid");
    reveal_strlit("id");
    reveal_strlit("magneturi");
    assert("enclosure"@.len() == 9 && "entry"@.len() == 5);
    assert("enclosure"@[0] == 'e');
    assert("enclosure"@[1] == 'n');
    assert("item"@[0] == 'i');
    assert("item"@[1] == 't');
    assert("entry"@[0] == 'e');
    assert("entry"@[1] == 'n');
    assert("title"@[0] == 't');
    assert("title"@[1] == 'i');
    assert("link"@[0] == 'l');
    assert("link"@[1] == 'i');
    assert("guid"@[0] == 'g');
    assert("guid"@[1] == 'u');
    assert("id"@[0] == 'i');
    assert("id"@[1] == 'd');
    assert("magneturi"@[0] == 'm');
    assert("magneturi"@[1] == 'a');
}

/// One entry of a document: it is opened by the piece at `from` and closed by the one at `to`,
/// the document goes on until then, and no other entry is opened or closed in between.
pub open spec fn is_entry(pieces: Seq<XmlPiece>, from: int, to: int) -> bool {
    &&& 0 <= from < to < pieces.len()
    &&& starts_entry(pieces[from])
    &&& closes_entry(pieces[to])
    &&& forall|k: int| 0 <= k <= to ==> !ends_document(#[trigger] pieces[k])
    &&& forall|k: int|
        from < k < to ==> !starts_entry(#[trigger] pieces[k]) && !closes_entry(pieces[k])
}

/// What was read up to a piece is not lost later.
proof fn lemma_items_stay(pieces: Seq<XmlPiece>, n: int)
    requires
        0 <= n <= pieces.len(),
    ensures
        read_pieces(pieces.take(n)).items.len() <= read_pieces(pieces).items.len(),
        forall|k: int|
            0 <= k < read_pieces(pieces.take(n)).items.len() ==> #[trigger] read_pieces(
                pieces,
            ).items[k] == read_pieces(pieces.take(n)).items[k],
    decreases pieces.len() - n,
{
    if n == pieces.len() {
        assert(pieces.take(n) =~= pieces);
    } else {
        lemma_items_stay(pieces, n + 1);
        lemma_step(pieces, n);
        let now = read_pieces(pieces.take(n));
        let next = read_pieces(pieces.take(n + 1));
        assert(next.items == now.items || (now.current is Some && next.items == now.items.push(
            now.current->0,
        )));
        assert forall|k: int| 0 <= k < now.items.len() implies #[trigger] read_pieces(
            pieces,
        ).items[k] == now.items[k] by {
            assert(next.items[k] == now.items[k]);
        }
    }
}

/// One more piece is read.
proof fn lemma_step(pieces: Seq<XmlPiece>, n: int)
    requires
        0 <= n < pieces.len(),
    ensures
        read_pieces(pieces.take(n + 1)) == after_piece(read_pieces(pieces.take(n)), pieces[n]),
{
    assert(pieces.take(n + 1).drop_last() =~= pieces.take(n));
    assert(pieces.take(n + 1).last() == pieces[n]);
}

/// Reading goes on as long as the document does.
proof fn lemma_not_done(pieces: Seq<XmlPiece>, n: int)
    requires
        0 <= n <= pieces.len(),
        forall|k: int| 0 <= k < n ==> !ends_document(#[trigger] pieces[k]),
    ensures
        !read_pieces(pieces.take(n)).done,
    decreases n,
{
    if n > 0 {
        lemma_not_done(pieces, n - 1);
        lemma_step(pieces, n - 1);
        assert(!ends_document(pieces[n - 1]));
    }
}

/// Inside an entry there is one that is being read.
proof fn lemma_inside(pieces: Seq<XmlPiece>, from: int, to: int, n: int)
    requires
        is_entry(pieces, from, to),
        from < n <= to,
    ensures
        !read_pieces(pieces.take(n)).done,
        read_pieces(pieces.take(n)).current is Some,
        read_pieces(pieces.take(n)).items == read_pieces(pieces.take(from)).items,
    decreases n,
{
    lemma_not_done(pieces, n);
    lemma_not_done(pieces, n - 1);
    lemma_step(pieces, n - 1);
    if n == from + 1 {
        assert(starts_entry(pieces[from]));
    } else {
        lemma_inside(pieces, from, to, n - 1);
        assert(!starts_entry(pieces[n - 1]) && !closes_entry(pieces[n - 1]));
    }
}

/// The entry that a span of the document comes to is the one that was being read at its end, and
/// it is the next of the entries.
proof fn lemma_entry_is_read(pieces: Seq<XmlPiece>, from: int, to: int)
    requires
        is_entry(pieces, from, to),
    ensures
        entry_number(pieces, from) < read_pieces(pieces).items.len(),
        Some(read_pieces(pieces).items[entry_number(pieces, from)]) == read_pieces(
            pieces.take(to),
        ).current,
{
    lemma_inside(pieces, from, to, to);
    lemma_step(pieces, to);
    lemma_items_stay(pieces, to + 1);
    assert(closes_entry(pieces[to]));
    let k = entry_number(pieces, from);
    let closed = read_pieces(pieces.take(to + 1));
    assert(closed.items.len() == k + 1);
    assert(read_pieces(pieces).items[k] == closed.items[k]);
}

/// How many entries are read before the piece at `from`.
pub open spec fn entry_number(pieces: Seq<XmlPiece>, from: int) -> int {
    read_pieces(pieces.take(from)).items.len() as int
}

/// No magnet tag is open before the piece at `n`: each that was opened was closed since.
pub open spec fn no_magnet_open(pieces: Seq<XmlPiece>, n: int) -> bool {
    forall|m: int|
        0 <= m < n && #[trigger] starts(pieces[m], "magneturi"@) ==> exists|q: int|
            m < q < n && (#[trigger] pieces[q]) is End && !closes_entry(pieces[q])
}

/// Where no magnet tag is open no text is taken for a magnet link.
proof fn lemma_no_magnet(pieces: Seq<XmlPiece>, n: int)
    requires
        0 <= n <= pieces.len(),
        forall|k: int| 0 <= k < n ==> !ends_document(#[trigger] pieces[k]),
        no_magnet_open(pieces, n),
    ensures
        read_pieces(pieces.take(n)).capture != Capture::Magnet,
    decreases n,
{
    if n > 0 {
        lemma_not_done(pieces, n - 1);
        lemma_step(pieces, n - 1);
        let last = pieces[n - 1];
        if last is End && !closes_entry(last) {
        } else {
            assert(!starts(last, "magneturi"@)) by {
                if starts(last, "magneturi"@) {
                    let q = choose|q: int|
                        n - 1 < q < n && (#[trigger] pieces[q]) is End && !closes_entry(pieces[q]);
                }
            }
            assert(no_magnet_open(pieces, n - 1)) by {
                assert forall|m: int|
                    0 <= m < n - 1 && #[trigger] starts(pieces[m], "magneturi"@) implies exists|q: int|
                    m < q < n - 1 && (#[trigger] pieces[q]) is End && !closes_entry(pieces[q]) by {
                    let q = choose|q: int|
                        m < q < n && (#[trigger] pieces[q]) is End && !closes_entry(pieces[q]);
                    assert(q != n - 1);
                    assert(pieces[q] is End);
                }
            }
            lemma_no_magnet(pieces, n - 1);
        }
    }
}

/// An address that an entry has got stays, if no magnet tag and no other enclosure follows.
proof fn lemma_address_stays(pieces: Seq<XmlPiece>, from: int, to: int, n: int, m: int, address: Seq<char>)
    requires
        is_entry(pieces, from, to),
        from < n <= m <= to,
        (read_pieces(pieces.take(n)).current->0).uri == Some(address),
        read_pieces(pieces.take(n)).capture != Capture::Magnet,
        forall|k: int|
            n <= k < to ==> !starts(#[trigger] pieces[k], "magneturi"@) && !opens(
                pieces[k],
                "enclosure"@,
            ),
    ensures
        (read_pieces(pieces.take(m)).current->0).uri == Some(address),
        read_pieces(pieces.take(m)).capture != Capture::Magnet,
    decreases m,
{
    if m > n {
        lemma_address_stays(pieces, from, to, n, m - 1, address);
        lemma_inside(pieces, from, to, m - 1);
        lemma_step(pieces, m - 1);
        let p = pieces[m - 1];
        assert(!starts_entry(p) && !closes_entry(p));
        assert(!starts(p, "magneturi"@) && !opens(p, "enclosure"@));
    }
}

/// The address of an enclosure is the address of its entry, whatever links stand beside it, if
/// no magnet tag and no other enclosure follows in the entry and none was left open before.
pub proof fn law_enclosures_count_more_than_links(
    pieces: Seq<XmlPiece>,
    from: int,
    at: int,
    to: int,
    url: Seq<char>,
)
    requires
        is_entry(pieces, from, to),
        from < at < to,
        opens_with(pieces[at], "enclosure"@, "url"@, url),
        no_magnet_open(pieces, at),
        forall|k: int|
            at < k < to ==> !starts(#[trigger] pieces[k], "magneturi"@) && !opens(
                pieces[k],
                "enclosure"@,
            ),
    ensures
        entry_number(pieces, from) < read_pieces(pieces).items.len(),
        read_pieces(pieces).items[entry_number(pieces, from)].uri == Some(url),
{
    lemma_inside(pieces, from, to, at);
    lemma_step(pieces, at);
    lemma_no_magnet(pieces, at);
    lemma_names_differ();
    match pieces[at] {
        XmlPiece::Start(raw, rest) => {
            lemma_gives_attribute(rest, "url"@, url);
        },
        XmlPiece::Empty(raw, rest) => {
            lemma_gives_attribute(rest, "url"@, url);
        },
        _ => {},
    }
    lemma_address_stays(pieces, from, to, at + 1, to, url);
    lemma_entry_is_read(pieces, from, to);
}

/// The text of a magnet tag is the address of its entry, whatever links and enclosures stand
/// before it, if no other magnet tag and no enclosure follows.
pub proof fn law_magnet_links_count_most(
    pieces: Seq<XmlPiece>,
    from: int,
    at: int,
    to: int,
    link: Seq<char>,
)
    requires
        is_entry(pieces, from, to),
        from < at,
        at + 2 < to,
        starts(pieces[at], "magneturi"@),
        pieces[at + 1] == XmlPiece::Text(Some(link)),
        pieces[at + 2] is End,
        forall|k: int|
            at < k < to ==> !starts(#[trigger] pieces[k], "magneturi"@) && !opens(
                pieces[k],
                "enclosure"@,
            ),
    ensures
        entry_number(pieces, from) < read_pieces(pieces).items.len(),
        read_pieces(pieces).items[entry_number(pieces, from)].uri == Some(link),
{
    lemma_inside(pieces, from, to, at);
    lemma_inside(pieces, from, to, at + 1);
    lemma_inside(pieces, from, to, at + 2);
    lemma_step(pieces, at);
    lemma_step(pieces, at + 1);
    lemma_step(pieces, at + 2);
    lemma_names_differ();
    assert(!closes_entry(pieces[at + 2]));
    lemma_address_stays(pieces, from, to, at + 3, to, link);
    lemma_entry_is_read(pieces, from, to);
}

/// A link gives an entry its address where the entry has none yet, by its text or by its `href`;
/// without any tag that gives an address an entry has none.
proof fn lemma_no_address(pieces: Seq<XmlPiece>, from: int, to: int, n: int)
    requires
        is_entry(pieces, from, to),
        from < n <= to,
        no_magnet_open(pieces, from),
        no_link_open(pieces, from),
        forall|k: int|
            from < k < n ==> !starts(#[trigger] pieces[k], "magneturi"@) && !opens(
                pieces[k],
                "enclosure"@,
            ) && !opens(pieces[k], "link"@),
    ensures
        (read_pieces(pieces.take(n)).current->0).uri is None,
        read_pieces(pieces.take(n)).capture != Capture::Magnet,
        read_pieces(pieces.take(n)).capture != Capture::Link,
    decreases n,
{
    lemma_not_done(pieces, n - 1);
    lemma_step(pieces, n - 1);
    if n == from + 1 {
        lemma_no_magnet(pieces, from);
        lemma_no_link(pieces, from);
        assert(starts_entry(pieces[from]));
    } else {
        lemma_no_address(pieces, from, to, n - 1);
        lemma_inside(pieces, from, to, n - 1);
        let p = pieces[n - 1];
        assert(!starts_entry(p) && !closes_entry(p));
        assert(!starts(p, "magneturi"@) && !opens(p, "enclosure"@) && !opens(p, "link"@));
    }
}

/// No link is open before the piece at `n`: each that was opened was closed since.
pub open spec fn no_link_open(pieces: Seq<XmlPiece>, n: int) -> bool {
    forall|m: int|
        0 <= m < n && #[trigger] starts(pieces[m], "link"@) ==> exists|q: int|
            m < q < n && (#[trigger] pieces[q]) is End && !closes_entry(pieces[q])
}

/// Where no link is open no text is taken for one.
proof fn lemma_no_link(pieces: Seq<XmlPiece>, n: int)
    requires
        0 <= n <= pieces.len(),
        forall|k: int| 0 <= k < n ==> !ends_document(#[trigger] pieces[k]),
        no_link_open(pieces, n),
    ensures
        read_pieces(pieces.take(n)).capture != Capture::Link,
    decreases n,
{
    if n > 0 {
        lemma_not_done(pieces, n - 1);
        lemma_step(pieces, n - 1);
        let last = pieces[n - 1];
        if last is End && !closes_entry(last) {
        } else {
            assert(!starts(last, "link"@)) by {
                if starts(last, "link"@) {
                    let q = choose|q: int|
                        n - 1 < q < n && (#[trigger] pieces[q]) is End && !closes_entry(pieces[q]);
                }
            }
            assert(no_link_open(pieces, n - 1)) by {
                assert forall|m: int|
                    0 <= m < n - 1 && #[trigger] starts(pieces[m], "link"@) implies exists|q: int|
                    m < q < n - 1 && (#[trigger] pieces[q]) is End && !closes_entry(pieces[q]) by {
                    let q = choose|q: int|
                        m < q < n && (#[trigger] pieces[q]) is End && !closes_entry(pieces[q]);
                    assert(q != n - 1);
                    assert(pieces[q] is End);
                }
            }
            lemma_no_link(pieces, n - 1);
        }
    }
}

/// The first link of an entry without enclosures and magnet links is its address: the text of
/// the link, or its `href`.
pub proof fn law_first_link_is_the_address(
    pieces: Seq<XmlPiece>,
    from: int,
    at: int,
    to: int,
    address: Seq<char>,
)
    requires
        is_entry(pieces, from, to),
        from < at < to,
        no_magnet_open(pieces, from),
        no_link_open(pieces, from),
        forall|k: int|
            from < k < to ==> !starts(#[trigger] pieces[k], "magneturi"@) && !opens(
                pieces[k],
                "enclosure"@,
            ),
        forall|k: int| from < k < at ==> !opens(#[trigger] pieces[k], "link"@),
        opens_with(pieces[at], "link"@, "href"@, address) || {
            &&& pieces[at] matches XmlPiece::Start(raw, rest)
            &&& tag_name(raw) == "link"@
            &&& lacks_attribute(rest, "href"@)
            &&& at + 1 < to
            &&& pieces[at + 1] == XmlPiece::Text(Some(address))
        },
    ensures
        entry_number(pieces, from) < read_pieces(pieces).items.len(),
        read_pieces(pieces).items[entry_number(pieces, from)].uri == Some(address),
{
    lemma_no_address(pieces, from, to, at);
    lemma_inside(pieces, from, to, at);
    lemma_step(pieces, at);
    lemma_names_differ();
    if opens_with(pieces[at], "link"@, "href"@, address) {
        match pieces[at] {
            XmlPiece::Start(raw, rest) => {
                lemma_gives_attribute(rest, "href"@, address);
            },
            XmlPiece::Empty(raw, rest) => {
                lemma_gives_attribute(rest, "href"@, address);
            },
            _ => {},
        }
        lemma_address_stays(pieces, from, to, at + 1, to, address);
    } else {
        if let XmlPiece::Start(raw, rest) = pieces[at] {
            lemma_attribute_missing(attributes_in(rest), encode_utf8("href"@));
        }
        lemma_inside(pieces, from, to, at + 1);
        lemma_step(pieces, at + 1);
        lemma_address_stays(pieces, from, to, at + 2, to, address);
    }
    lemma_entry_is_read(pieces, from, to);
}

/// An id that an entry has got stays, if none follows.
proof fn lemma_id_stays(pieces: Seq<XmlPiece>, from: int, to: int, n: int, m: int, id: Seq<char>)
    requires
        is_entry(pieces, from, to),
        from < n <= m <= to,
        (read_pieces(pieces.take(n)).current->0).guid == Some(id),
        read_pieces(pieces.take(n)).capture != Capture::Guid,
        forall|k: int|
            n <= k < to ==> !starts(#[trigger] pieces[k], "guid"@) && !starts(pieces[k], "id"@),
    ensures
        (read_pieces(pieces.take(m)).current->0).guid == Some(id),
        read_pieces(pieces.take(m)).capture != Capture::Guid,
    decreases m,
{
    if m > n {
        lemma_id_stays(pieces, from, to, n, m - 1, id);
        lemma_inside(pieces, from, to, m - 1);
        lemma_step(pieces, m - 1);
        let p = pieces[m - 1];
        assert(!starts_entry(p) && !closes_entry(p));
        assert(!starts(p, "guid"@) && !starts(p, "id"@));
    }
}

/// The text of the last `guid` or `id` of an entry is its id.
pub proof fn law_last_id_is_the_id(
    pieces: Seq<XmlPiece>,
    from: int,
    at: int,
    to: int,
    id: Seq<char>,
)
    requires
        is_entry(pieces, from, to),
        from < at,
        at + 2 < to,
        starts(pieces[at], "guid"@) || starts(pieces[at], "id"@),
        pieces[at + 1] == XmlPiece::Text(Some(id)),
        pieces[at + 2] is End,
        forall|k: int|
            at < k < to ==> !starts(#[trigger] pieces[k], "guid"@) && !starts(pieces[k], "id"@),
    ensures
        entry_number(pieces, from) < read_pieces(pieces).items.len(),
        read_pieces(pieces).items[entry_number(pieces, from)].guid == Some(id),
{
    lemma_inside(pieces, from, to, at);
    lemma_inside(pieces, from, to, at + 1);
    lemma_inside(pieces, from, to, at + 2);
    lemma_step(pieces, at);
    lemma_step(pieces, at + 1);
    lemma_step(pieces, at + 2);
    lemma_names_differ();
    assert(!closes_entry(pieces[at + 2]));
    lemma_id_stays(pieces, from, to, at + 3, to, id);
    lemma_entry_is_read(pieces, from, to);
}

/// A title that an entry has got stays, if none follows.
proof fn lemma_title_stays(pieces: Seq<XmlPiece>, from: int, to: int, n: int, m: int, title: Seq<char>)
    requires
        is_entry(pieces, from, to),
        from < n <= m <= to,
        (read_pieces(pieces.take(n)).current->0).title == title,
        read_pieces(pieces.take(n)).capture != Capture::Title,
        forall|k: int| n <= k < m ==> !starts(#[trigger] pieces[k], "title"@),
    ensures
        (read_pieces(pieces.take(m)).current->0).title == title,
        read_pieces(pieces.take(m)).capture != Capture::Title,
    decreases m,
{
    if m > n {
        lemma_title_stays(pieces, from, to, n, m - 1, title);
        lemma_inside(pieces, from, to, m - 1);
        lemma_step(pieces, m - 1);
        let p = pieces[m - 1];
        assert(!starts_entry(p) && !closes_entry(p));
        assert(!starts(p, "title"@));
    }
}

/// The text of the one title of an entry is its title.
pub proof fn law_title_is_read(
    pieces: Seq<XmlPiece>,
    from: int,
    at: int,
    to: int,
    title: Seq<char>,
)
    requires
        is_entry(pieces, from, to),
        from < at,
        at + 2 < to,
        starts(pieces[at], "title"@),
        pieces[at + 1] == XmlPiece::Text(Some(title)),
        pieces[at + 2] is End,
        forall|k: int| from < k < to && k != at ==> !starts(#[trigger] pieces[k], "title"@),
        read_pieces(pieces.take(from)).capture != Capture::Title,
    ensures
        entry_number(pieces, from) < read_pieces(pieces).items.len(),
        read_pieces(pieces).items[entry_number(pieces, from)].title == title,
{
    lemma_not_done(pieces, from);
    lemma_step(pieces, from);
    assert(starts_entry(pieces[from]));
    lemma_inside(pieces, from, to, from + 1);
    lemma_title_stays(pieces, from, to, from + 1, at, Seq::empty());
    lemma_inside(pieces, from, to, at);
    lemma_inside(pieces, from, to, at + 1);
    lemma_inside(pieces, from, to, at + 2);
    lemma_step(pieces, at);
    lemma_step(pieces, at + 1);
    lemma_step(pieces, at + 2);
    lemma_names_differ();
    assert(!closes_entry(pieces[at + 2]));
    assert(Seq::<char>::empty() + title =~= title);
    lemma_title_stays(pieces, from, to, at + 3, to, title);
    lemma_entry_is_read(pieces, from, to);
}

// ----- choosing -----

/// What is added from a feed: exactly the entries whose address is a magnet link or leads to a
/// torrent file, that were not added before, and whose title the filter matches, where there is
/// one. Each is known by its id, or by its address where it has none.
pub proof fn law_what_is_added_from_a_feed(
    items: Seq<ItemView>,
    filter: Seq<char>,
    seen: RssSeen,
    i: int,
)
    requires
        0 <= i < items.len(),
        items[i].uri is Some,
    ensures
        ({
            let key = match items[i].guid {
                Some(guid) => guid,
                None => items[i].uri->0,
            };
            let wanted = {
                &&& key.len() > 0
                &&& !seen.seen.list().contains(key)
                &&& torrent_address(items[i].uri->0)
                &&& trim(filter).len() == 0 || regex_matches(filter, items[i].title)
            };
            wanted ==> wanted_items(items, filter, seen).contains((key, items[i].uri->0))
        }),
    decreases items.len(),
{
    let all = wanted_items(items, filter, seen);
    let before = wanted_items(items.drop_last(), filter, seen);
    let key = match items[i].guid {
        Some(guid) => guid,
        None => items[i].uri->0,
    };
    let pair = (key, items[i].uri->0);
    if i == items.len() - 1 {
        if all.len() > 0 {
            assert(all[all.len() - 1] == all.last());
        }
        assert(items.last() == items[i]);
        if all.len() > before.len() {
            assert(all.last() == pair);
        }
    } else {
        assert(items.drop_last()[i] == items[i]);
        law_what_is_added_from_a_feed(items.drop_last(), filter, seen, i);
        if before.contains(pair) {
            assert(all[before.index_of(pair)] == pair);
        }
    }
}

/// Whatever is added from a feed is one of its entries, passes the filter and is new.
pub proof fn law_only_entries_are_added(
    items: Seq<ItemView>,
    filter: Seq<char>,
    seen: RssSeen,
    k: int,
)
    requires
        0 <= k < wanted_items(items, filter, seen).len(),
    ensures
        exists|i: int| {
            let (key, uri) = wanted_items(items, filter, seen)[k];
            &&& 0 <= i < items.len()
            &&& (#[trigger] items[i]).uri == Some(uri)
            &&& items[i].guid is Some ==> items[i].guid == Some(key)
            &&& items[i].guid is None ==> key == uri
            &&& key.len() > 0
            &&& !seen.seen.list().contains(key)
            &&& torrent_address(uri)
            &&& trim(filter).len() > 0 ==> regex_matches(filter, items[i].title)
        },
    decreases items.len(),
{
    let all = wanted_items(items, filter, seen);
    let init = items.drop_last();
    let before = wanted_items(init, filter, seen);
    if k < before.len() {
        law_only_entries_are_added(init, filter, seen, k);
        assert(all[k] == before[k]);
        let i = choose|i: int| {
            let (key, uri) = before[k];
            &&& 0 <= i < init.len()
            &&& (#[trigger] init[i]).uri == Some(uri)
            &&& init[i].guid is Some ==> init[i].guid == Some(key)
            &&& init[i].guid is None ==> key == uri
            &&& key.len() > 0
            &&& !seen.seen.list().contains(key)
            &&& torrent_address(uri)
            &&& trim(filter).len() > 0 ==> regex_matches(filter, init[i].title)
        };
        assert(items[i] == init[i]);
    } else {
        let last = items.len() - 1;
        assert(items[last] == items.last());
        assert(all[k] == (item_key(items[last]), items[last].uri->0));
    }
}

/// A magnet link is the address of a torrent, and so is one whose path ends in `.torrent`,
/// whatever query or fragment follows.
pub proof fn law_torrent_addresses(path: Seq<char>, rest: Seq<char>, mark: char)
    requires
        !path.contains('?'),
        !path.contains('#'),
        mark == '?' || mark == '#',
    ensures
        torrent_address("magnet:"@ + rest),
        !has_prefix(path, "magnet:"@) ==> torrent_address(path) == has_suffix(path, ".torrent"@),
        !has_prefix(path.push(mark) + rest, "magnet:"@) ==> torrent_address(path.push(mark) + rest)
            == has_suffix(path, ".torrent"@),
{
    assert(("magnet:"@ + rest).subrange(0, "magnet:"@.len() as int) =~= "magnet:"@);
    let uri = path.push(mark) + rest;
    assert forall|i: int| 0 <= i < path.len() implies !ends_path(#[trigger] uri[i]) by {
        assert(uri[i] == path[i]);
        assert(path.contains(path[i]));
    }
    assert forall|i: int| 0 <= i < path.len() implies !ends_path(#[trigger] path[i]) by {
        assert(path.contains(path[i]));
    }
    assert(uri.take(path.len() as int) =~= path);
    assert(path.take(path.len() as int) =~= path);
    assert(is_address_path(uri, path));
    assert(is_address_path(path, path));
    assert forall|other: Seq<char>| #[trigger]
        is_address_path(uri, other) implies other == path by {
        if other.len() < path.len() {
            assert(ends_path(uri[other.len() as int]));
        }
        if other.len() > path.len() {
            assert(ends_path(uri[path.len() as int]));
        }
    }
    assert forall|other: Seq<char>| #[trigger]
        is_address_path(path, other) implies other == path by {
        if other.len() < path.len() {
            assert(ends_path(path[other.len() as int]));
        }
    }
}

} // verus!
