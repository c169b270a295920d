//! Feed subscriptions: reading a feed and choosing what to add from it.

use crate::names::NameSet;
use crate::text::{
    ascii_lower, ascii_lower_char, chars_of, concat2, ends_with, has_prefix, has_suffix, is_empty,
    opt_text, same, split, split_on, starts_with, string_of, texts, trim, trimmed,
};
use quick_xml::events::attributes::{Attribute, Attributes};
use quick_xml::events::{BytesStart, Event};
use std::borrow::Cow;
use vstd::prelude::*;
use vstd::utf8::{decode_utf8, encode_utf8, valid_utf8};

verus! {

/// One subscription.
#[derive(Debug, Clone, PartialEq, Eq)]
pub struct RssFeed {
    pub url: String,
    /// regular expression that titles must match; empty accepts all
    pub filter: String,
    pub category: Option<String>,
    pub save_path: Option<String>,
    pub poll_interval_minutes: u64,
    pub start_paused: bool,
}

/// The subscriptions, in the order they are listed.
#[derive(Debug, Clone, PartialEq, Eq)]
pub struct RssFeeds {
    pub feeds: Vec<RssFeed>,
}

/// The items that were added before, so that none is added again.
#[derive(Debug, Clone, PartialEq, Eq)]
pub struct RssSeen {
    pub seen: NameSet,
}

impl RssSeen {
    /// The set behind it is in order.
    pub open spec fn wf(&self) -> bool {
        self.seen.wf()
    }

    /// Nothing seen yet.
    pub fn new() -> (r: RssSeen)
        ensures
            r.wf(),
            r.seen.list() == Seq::<Seq<char>>::empty(),
    {
        RssSeen { seen: NameSet::new() }
    }

    /// Whether an item was added before.
    pub fn contains(&self, key: &str) -> (r: bool)
        requires
            self.wf(),
        ensures
            r == self.seen.has(key@),
    {
        self.seen.contains(key)
    }

    /// Notes that an item was added.
    pub fn insert(&mut self, key: String)
        requires
            old(self).wf(),
        ensures
            final(self).wf(),
            forall|k: Seq<char>| #[trigger]
                final(self).seen.has(k) <==> (old(self).seen.has(k) || k == key@),
    {
        self.seen.insert(key.as_str());
    }
}

// ----- what is taken from std, quick_xml and regex -----

/// `String::from_utf8` of std: the text that the bytes encode, where they are UTF-8.
#[verifier::external_body]
fn utf8_text(bytes: &[u8]) -> (r: Option<String>)
    ensures
        r is Some <==> valid_utf8(bytes@),
        r matches Some(s) ==> s@ == decode_utf8(bytes@),
{
    String::from_utf8(bytes.to_vec()).ok()
}

/// The text that std makes of bytes that need not be UTF-8.
pub uninterp spec fn lossy_text(bytes: Seq<u8>) -> Seq<char>;

/// `String::from_utf8_lossy` of std: a function of the bytes, which gives the text that they
/// encode where they are UTF-8.
#[verifier::external_body]
fn utf8_lossy(bytes: &[u8]) -> (r: String)
    ensures
        r@ == lossy_text(bytes@),
        valid_utf8(bytes@) ==> r@ == decode_utf8(bytes@),
{
    String::from_utf8_lossy(bytes).into_owned()
}

/// The reader of `quick_xml`, which hands out a document piece by piece.
#[verifier::external_type_specification]
#[verifier::external_body]
#[verifier::reject_recursive_types(R)]
pub struct ExXmlReader<R>(quick_xml::Reader<R>);

/// One piece of a document.
#[derive(Debug, PartialEq, Eq)]
pub enum XmlEvent {
    /// An opening tag, with what follows its name.
    Start((Vec<u8>, Vec<u8>)),
    /// A tag that opens and closes at once, with what follows its name.
    Empty((Vec<u8>, Vec<u8>)),
    /// A closing tag.
    End(Vec<u8>),
    /// Text with its entities resolved; `None` where they cannot be.
    Text(Option<String>),
    /// Verbatim text.
    CData(Vec<u8>),
    /// Comments, declarations and instructions.
    Other,
    /// The end of the document.
    Eof,
    /// The document cannot be read on.
    Malformed,
}

/// An attribute as plain values.
pub open spec fn attribute_view(a: Option<(Vec<u8>, Vec<u8>)>) -> Option<(Seq<u8>, Seq<u8>)> {
    match a {
        Some((name, value)) => Some((name@, value@)),
        None => None,
    }
}

/// The attributes as plain values.
pub open spec fn attribute_views(list: Seq<Option<(Vec<u8>, Vec<u8>)>>) -> Seq<
    Option<(Seq<u8>, Seq<u8>)>,
> {
    list.map_values(|a: Option<(Vec<u8>, Vec<u8>)>| attribute_view(a))
}

/// A piece of a document as plain values.
pub enum XmlPiece {
    Start(Seq<u8>, Seq<u8>),
    Empty(Seq<u8>, Seq<u8>),
    End(Seq<u8>),
    Text(Option<Seq<char>>),
    CData(Seq<u8>),
    Other,
    Eof,
    Malformed,
}

impl View for XmlEvent {
    type V = XmlPiece;

    open spec fn view(&self) -> XmlPiece {
        match *self {
            XmlEvent::Start((name, attributes)) => XmlPiece::Start(name@, attributes@),
            XmlEvent::Empty((name, attributes)) => XmlPiece::Empty(name@, attributes@),
            XmlEvent::End(name) => XmlPiece::End(name@),
            XmlEvent::Text(value) => XmlPiece::Text(opt_text(value)),
            XmlEvent::CData(bytes) => XmlPiece::CData(bytes@),
            XmlEvent::Other => XmlPiece::Other,
            XmlEvent::Eof => XmlPiece::Eof,
            XmlEvent::Malformed => XmlPiece::Malformed,
        }
    }
}

/// The piece is the last one.
pub open spec fn is_last_piece(p: XmlPiece) -> bool {
    p is Eof || p is Malformed
}

/// The pieces of a document, up to and with the one that ends it.
pub uninterp spec fn xml_pieces(text: Seq<char>) -> Seq<XmlPiece>;

/// The pieces that a reader has still to hand out, up to and with the one that ends the
/// document.
pub uninterp spec fn pieces_left(reader: quick_xml::Reader<&[u8]>) -> Seq<XmlPiece>;

/// The pieces end with one that ends the document, and hold no other such piece.
pub open spec fn ends_once(pieces: Seq<XmlPiece>) -> bool {
    &&& pieces.len() > 0
    &&& is_last_piece(pieces.last())
    &&& forall|i: int| 0 <= i < pieces.len() - 1 ==> !is_last_piece(#[trigger] pieces[i])
}

/// `quick_xml::Reader::from_str`, with the white space around texts trimmed: a reader that has
/// still to hand out all the pieces of the document. Their number is finite: each piece but the
/// last takes some of the text.
#[verifier::external_body]
fn open_xml(text: &str) -> (r: quick_xml::Reader<&[u8]>)
    ensures
        pieces_left(r) == xml_pieces(text@),
        ends_once(pieces_left(r)),
{
    let mut reader = quick_xml::Reader::from_str(text);
    reader.config_mut().trim_text(true);
    reader
}

/// `quick_xml::Reader::read_event`: hands out the next piece of the document. Names and what
/// follows them are taken as they stand (`BytesStart::name`, `BytesStart::attributes_raw`), texts
/// as `BytesText::unescape` gives them.
#[verifier::external_body]
fn next_event(reader: &mut quick_xml::Reader<&[u8]>) -> (r: XmlEvent)
    requires
        pieces_left(*old(reader)).len() > 0,
    ensures
        r@ == pieces_left(*old(reader))[0],
        pieces_left(*final(reader)) == pieces_left(*old(reader)).skip(1),
{
    let tag = |e: &BytesStart| (e.name().0.to_vec(), e.attributes_raw().to_vec());
    match reader.read_event() {
        Ok(Event::Start(e)) => XmlEvent::Start(tag(&e)),
        Ok(Event::Empty(e)) => XmlEvent::Empty(tag(&e)),
        Ok(Event::End(e)) => XmlEvent::End(e.name().0.to_vec()),
        Ok(Event::Text(e)) => XmlEvent::Text(e.unescape().ok().map(Cow::into_owned)),
        Ok(Event::CData(e)) => XmlEvent::CData(e.to_vec()),
        Ok(Event::Eof) => XmlEvent::Eof,
        Ok(_) => XmlEvent::Other,
        Err(_) => XmlEvent::Malformed,
    }
}

/// The attributes that a text holds: each with its name without the prefix and its raw value, or
/// `None` where it cannot be read.
pub uninterp spec fn tag_attributes(raw: Seq<char>) -> Seq<Option<(Seq<u8>, Seq<u8>)>>;

/// `quick_xml::events::attributes::Attributes`: the attributes of what follows a tag's name, a
/// function of that text. The name of each is taken by `QName::local_name`.
#[verifier::external_body]
fn read_attributes(raw: &str) -> (r: Vec<Option<(Vec<u8>, Vec<u8>)>>)
    ensures
        attribute_views(r@) == tag_attributes(raw@),
{
    let plain = |a: Attribute| (a.key.local_name().as_ref().to_vec(), a.value.to_vec());
    Attributes::new(raw, 0).map(|a| a.ok().map(plain)).collect()
}

/// Why a text is no regular expression, where it is none.
pub uninterp spec fn regex_failure(pattern: Seq<char>) -> Option<Seq<char>>;

/// `regex::Regex::new`: tells why a pattern does not compile, where it does not.
#[verifier::external_body]
fn check_regex(pattern: &str) -> (r: Option<String>)
    ensures
        opt_text(r) == regex_failure(pattern@),
{
    regex::Regex::new(pattern).err().map(|e| e.to_string())
}

/// Whether a regular expression matches somewhere in a text.
pub uninterp spec fn regex_matches(pattern: Seq<char>, text: Seq<char>) -> bool;

/// `regex::Regex::is_match`: whether a pattern that compiles matches somewhere in the text.
#[verifier::external_body]
fn regex_is_match(pattern: &str, text: &str) -> (r: bool)
    requires
        regex_failure(pattern@) is None,
    ensures
        r == regex_matches(pattern@, text@),
{
    regex::Regex::new(pattern).unwrap().is_match(text)
}

// ----- names and attributes -----

/// Whether two byte strings are equal.
fn same_bytes(a: &[u8], b: &[u8]) -> (r: bool)
    ensures
        r == (a@ == b@),
{
    if a.len() != b.len() {
        return false;
    }
    let mut i: usize = 0;
    while i < a.len()
        invariant
            i <= a@.len(),
            a@.len() == b@.len(),
            forall|j: int| 0 <= j < i ==> a@[j] == b@[j],
        decreases a@.len() - i,
    {
        if a[i] != b[i] {
            return false;
        }
        i = i + 1;
    }
    assert(a@ =~= b@);
    true
}

/// The text in ASCII lowercase.
pub fn to_ascii_lower(s: &str) -> (r: String)
    ensures
        r@ == ascii_lower(s@),
{
    let v = chars_of(s);
    let mut out = String::new();
    let mut i: usize = 0;
    while i < v.len()
        invariant
            i <= v@.len(),
            out@ == ascii_lower(v@.take(i as int)),
        decreases v@.len() - i,
    {
        let c = v[i];
        let low = if 'A' <= c && c <= 'Z' {
            let code: u8 = c as u8 + 32;
            code as char
        } else {
            c
        };
        assert(low == ascii_lower_char(c));
        out.push(low);
        assert(out@ =~= ascii_lower(v@.take(i as int + 1)));
        i = i + 1;
    }
    assert(v@.take(v@.len() as int) =~= v@);
    out
}

/// The name of a tag without its prefix, in lowercase; empty where it is not UTF-8.
pub open spec fn tag_name(raw: Seq<u8>) -> Seq<char> {
    let name = if valid_utf8(raw) {
        decode_utf8(raw)
    } else {
        Seq::empty()
    };
    ascii_lower(split(name, ':').last())
}

/// The name of a tag without its prefix, in lowercase.
pub fn local_name(raw: &[u8]) -> (r: String)
    ensures
        r@ == tag_name(raw@),
{
    let name = match utf8_text(raw) {
        Some(s) => s,
        None => String::new(),
    };
    let parts = split_on(name.as_str(), ':');
    assert(texts(parts@).last() == parts@[parts@.len() - 1]@);
    assert(name@ =~= if valid_utf8(raw@) { decode_utf8(raw@) } else { Seq::empty() });
    to_ascii_lower(parts[parts.len() - 1].as_str())
}

/// The attributes that follow a tag's name; none where the bytes are no UTF-8.
pub open spec fn attributes_in(raw: Seq<u8>) -> Seq<Option<(Seq<u8>, Seq<u8>)>> {
    if valid_utf8(raw) {
        tag_attributes(decode_utf8(raw))
    } else {
        Seq::empty()
    }
}

/// The attributes that follow a tag's name.
fn list_attributes(raw: &[u8]) -> (r: Vec<Option<(Vec<u8>, Vec<u8>)>>)
    ensures
        attribute_views(r@) == attributes_in(raw@),
{
    match utf8_text(raw) {
        Some(text) => read_attributes(text.as_str()),
        None => {
            let none: Vec<Option<(Vec<u8>, Vec<u8>)>> = Vec::new();
            assert(attribute_views(none@) =~= attributes_in(raw@));
            none
        },
    }
}

/// The value of the first readable attribute of that name, where it is UTF-8.
pub open spec fn attribute(
    attributes: Seq<Option<(Seq<u8>, Seq<u8>)>>,
    key: Seq<u8>,
) -> Option<Seq<char>>
    decreases attributes.len(),
{
    if attributes.len() == 0 {
        None
    } else {
        match attributes[0] {
            Some((name, value)) if name == key => if valid_utf8(value) {
                Some(decode_utf8(value))
            } else {
                None
            },
            _ => attribute(attributes.skip(1), key),
        }
    }
}

/// The value of the first readable attribute of that name, where it is UTF-8.
pub fn attr_value(attributes: &Vec<Option<(Vec<u8>, Vec<u8>)>>, key: &str) -> (r: Option<String>)
    ensures
        opt_text(r) == attribute(
            attribute_views(attributes@),
            encode_utf8(key@),
        ),
{
    let ghost all = attribute_views(attributes@);
    let wanted = key.as_bytes();
    let mut i: usize = 0;
    assert(all.skip(0) =~= all);
    while i < attributes.len()
        invariant
            i <= attributes@.len(),
            all == attribute_views(attributes@),
            wanted@ == encode_utf8(key@),
            attribute(all, wanted@) == attribute(all.skip(i as int), wanted@),
        decreases attributes@.len() - i,
    {
        proof {
            assert(all.skip(i as int)[0] == attribute_view(attributes@[i as int]));
            assert(all.skip(i as int).skip(1) =~= all.skip(i as int + 1));
        }
        if let Some((name, value)) = &attributes[i] {
            if same_bytes(name.as_slice(), wanted) {
                return utf8_text(value.as_slice());
            }
        }
        i = i + 1;
    }
    None
}

// ----- reading a feed -----

/// One entry of a feed.
#[derive(Debug, Clone, PartialEq, Eq)]
pub struct FeedItem {
    pub title: String,
    pub uri: Option<String>,
    pub guid: Option<String>,
}

/// One entry of a feed as plain values.
pub struct ItemView {
    pub title: Seq<char>,
    pub uri: Option<Seq<char>>,
    pub guid: Option<Seq<char>>,
}

impl View for FeedItem {
    type V = ItemView;

    open spec fn view(&self) -> ItemView {
        ItemView { title: self.title@, uri: opt_text(self.uri), guid: opt_text(self.guid) }
    }
}

/// The entries of a feed as plain values.
pub open spec fn item_views(items: Seq<FeedItem>) -> Seq<ItemView> {
    items.map_values(|i: FeedItem| i@)
}

/// Which part of the current entry the next text belongs to.
#[derive(Debug, Clone, Copy, PartialEq, Eq, Structural)]
pub enum Capture {
    Nothing,
    Title,
    Link,
    Guid,
    Magnet,
}

/// What has been read of a feed so far.
pub struct FeedState {
    pub items: Seq<ItemView>,
    pub current: Option<ItemView>,
    pub capture: Capture,
    pub done: bool,
}

/// An entry of which nothing has been read.
pub open spec fn blank_item() -> ItemView {
    ItemView { title: Seq::empty(), uri: None, guid: None }
}

/// The entry with an address that it takes where it has none.
pub open spec fn with_link(item: ItemView, address: Option<Seq<char>>) -> ItemView {
    if address is Some && item.uri is None {
        ItemView { uri: address, ..item }
    } else {
        item
    }
}

/// The entry with the address of an enclosure, which counts more than a link.
pub open spec fn with_enclosure(item: ItemView, address: Option<Seq<char>>) -> ItemView {
    if address is Some {
        ItemView { uri: address, ..item }
    } else {
        item
    }
}

/// The entry with a text added to the part that is read.
pub open spec fn with_text(item: ItemView, capture: Capture, text: Seq<char>) -> ItemView {
    match capture {
        Capture::Title => ItemView { title: item.title + text, ..item },
        Capture::Link => with_link(item, Some(text)),
        Capture::Guid => ItemView { guid: Some(text), ..item },
        Capture::Magnet => ItemView { uri: Some(text), ..item },
        Capture::Nothing => item,
    }
}

/// What an opening tag changes.
pub open spec fn after_start(
    st: FeedState,
    name: Seq<char>,
    attributes: Seq<Option<(Seq<u8>, Seq<u8>)>>,
) -> FeedState {
    if name == "item"@ || name == "entry"@ {
        FeedState { current: Some(blank_item()), ..st }
    } else {
        match st.current {
            None => st,
            Some(item) => if name == "title"@ {
                FeedState { capture: Capture::Title, ..st }
            } else if name == "link"@ {
                match attribute(attributes, encode_utf8("href"@)) {
                    Some(href) => FeedState { current: Some(with_link(item, Some(href))), ..st },
                    None => FeedState { capture: Capture::Link, ..st },
                }
            } else if name == "guid"@ || name == "id"@ {
                FeedState { capture: Capture::Guid, ..st }
            } else if name == "magneturi"@ {
                FeedState { capture: Capture::Magnet, ..st }
            } else if name == "enclosure"@ {
                FeedState {
                    current: Some(
                        with_enclosure(item, attribute(attributes, encode_utf8("url"@))),
                    ),
                    ..st
                }
            } else {
                st
            },
        }
    }
}

/// What a tag without content changes.
pub open spec fn after_empty(
    st: FeedState,
    name: Seq<char>,
    attributes: Seq<Option<(Seq<u8>, Seq<u8>)>>,
) -> FeedState {
    match st.current {
        None => st,
        Some(item) => if name == "link"@ {
            FeedState {
                current: Some(with_link(item, attribute(attributes, encode_utf8("href"@)))),
                ..st
            }
        } else if name == "enclosure"@ {
            FeedState {
                current: Some(with_enclosure(item, attribute(attributes, encode_utf8("url"@)))),
                ..st
            }
        } else {
            st
        },
    }
}

/// What a closing tag changes.
pub open spec fn after_end(st: FeedState, name: Seq<char>) -> FeedState {
    if name == "item"@ || name == "entry"@ {
        match st.current {
            Some(item) => FeedState { items: st.items.push(item), current: None, ..st },
            None => st,
        }
    } else {
        FeedState { capture: Capture::Nothing, ..st }
    }
}

/// What a text changes.
pub open spec fn after_text(st: FeedState, text: Seq<char>) -> FeedState {
    match st.current {
        Some(item) => FeedState { current: Some(with_text(item, st.capture, text)), ..st },
        None => st,
    }
}

/// What one piece of the document changes.
pub open spec fn after_piece(st: FeedState, piece: XmlPiece) -> FeedState {
    if st.done {
        st
    } else {
        match piece {
            XmlPiece::Start(name, attributes) => after_start(st, tag_name(name), attributes_in(attributes)),
            XmlPiece::Empty(name, attributes) => after_empty(st, tag_name(name), attributes_in(attributes)),
            XmlPiece::End(name) => after_end(st, tag_name(name)),
            XmlPiece::Text(text) => after_text(
                st,
                match text {
                    Some(t) => t,
                    None => Seq::empty(),
                },
            ),
            XmlPiece::CData(bytes) => after_text(st, lossy_text(bytes)),
            XmlPiece::Other => st,
            XmlPiece::Eof => FeedState { done: true, ..st },
            XmlPiece::Malformed => FeedState { done: true, ..st },
        }
    }
}

/// What has been read after a row of pieces.
pub open spec fn read_pieces(pieces: Seq<XmlPiece>) -> FeedState
    decreases pieces.len(),
{
    if pieces.len() == 0 {
        FeedState { items: Seq::empty(), current: None, capture: Capture::Nothing, done: false }
    } else {
        after_piece(read_pieces(pieces.drop_last()), pieces.last())
    }
}

/// What has been read of a feed so far.
pub struct FeedReader {
    pub items: Vec<FeedItem>,
    pub current: Option<FeedItem>,
    pub capture: Capture,
    pub done: bool,
}

impl View for FeedReader {
    type V = FeedState;

    open spec fn view(&self) -> FeedState {
        FeedState {
            items: item_views(self.items@),
            current: match self.current {
                Some(item) => Some(item@),
                None => None,
            },
            capture: self.capture,
            done: self.done,
        }
    }
}

/// The entry with an address that it takes where it has none.
fn link_item(item: FeedItem, address: Option<String>) -> (r: FeedItem)
    ensures
        r@ == with_link(item@, opt_text(address)),
{
    if address.is_some() && item.uri.is_none() {
        FeedItem { uri: address, ..item }
    } else {
        item
    }
}

/// The entry with the address of an enclosure.
fn enclose_item(item: FeedItem, address: Option<String>) -> (r: FeedItem)
    ensures
        r@ == with_enclosure(item@, opt_text(address)),
{
    if address.is_some() {
        FeedItem { uri: address, ..item }
    } else {
        item
    }
}

impl FeedReader {
    /// Nothing read yet.
    pub fn new() -> (r: FeedReader)
        ensures
            r@ == read_pieces(Seq::empty()),
    {
        let r = FeedReader {
            items: Vec::new(),
            current: None,
            capture: Capture::Nothing,
            done: false,
        };
        assert(r@.items =~= Seq::<ItemView>::empty());
        r
    }

    /// Takes in an opening tag.
    fn start(self, name: &str, attributes: &Vec<Option<(Vec<u8>, Vec<u8>)>>) -> (r: FeedReader)
        ensures
            r@ == after_start(
                self@,
                name@,
                attribute_views(attributes@),
            ),
    {
        if same(name, "item") || same(name, "entry") {
            let item = FeedItem { title: String::new(), uri: None, guid: None };
            assert(item@.title =~= Seq::<char>::empty());
            return FeedReader { current: Some(item), ..self };
        }
        match self.current {
            None => FeedReader { current: None, ..self },
            Some(item) => if same(name, "title") {
                FeedReader { capture: Capture::Title, current: Some(item), ..self }
            } else if same(name, "link") {
                match attr_value(attributes, "href") {
                    Some(href) => FeedReader { current: Some(link_item(item, Some(href))), ..self },
                    None => FeedReader { capture: Capture::Link, current: Some(item), ..self },
                }
            } else if same(name, "guid") || same(name, "id") {
                FeedReader { capture: Capture::Guid, current: Some(item), ..self }
            } else if same(name, "magneturi") {
                FeedReader { capture: Capture::Magnet, current: Some(item), ..self }
            } else if same(name, "enclosure") {
                let address = attr_value(attributes, "url");
                FeedReader { current: Some(enclose_item(item, address)), ..self }
            } else {
                FeedReader { current: Some(item), ..self }
            },
        }
    }

    /// Takes in a tag without content.
    fn empty(self, name: &str, attributes: &Vec<Option<(Vec<u8>, Vec<u8>)>>) -> (r: FeedReader)
        ensures
            r@ == after_empty(
                self@,
                name@,
                attribute_views(attributes@),
            ),
    {
        match self.current {
            None => FeedReader { current: None, ..self },
            Some(item) => if same(name, "link") {
                let address = attr_value(attributes, "href");
                FeedReader { current: Some(link_item(item, address)), ..self }
            } else if same(name, "enclosure") {
                let address = attr_value(attributes, "url");
                FeedReader { current: Some(enclose_item(item, address)), ..self }
            } else {
                FeedReader { current: Some(item), ..self }
            },
        }
    }

    /// Takes in a closing tag.
    fn end(self, name: &str) -> (r: FeedReader)
        ensures
            r@ == after_end(self@, name@),
    {
        if same(name, "item") || same(name, "entry") {
            match self.current {
                Some(item) => {
                    let mut items = self.items;
                    let ghost before = items@;
                    items.push(item);
                    assert(item_views(items@) =~= item_views(before).push(item@));
                    FeedReader { items, current: None, ..self }
                },
                None => FeedReader { current: None, ..self },
            }
        } else {
            FeedReader { capture: Capture::Nothing, ..self }
        }
    }

    /// Takes in a text.
    fn text(self, value: String) -> (r: FeedReader)
        ensures
            r@ == after_text(self@, value@),
    {
        match self.current {
            Some(item) => {
                let next = match self.capture {
                    Capture::Title => {
                        let title = concat2(item.title.as_str(), value.as_str());
                        FeedItem { title, ..item }
                    },
                    Capture::Link => link_item(item, Some(value)),
                    Capture::Guid => FeedItem { guid: Some(value), ..item },
                    Capture::Magnet => FeedItem { uri: Some(value), ..item },
                    Capture::Nothing => item,
                };
                FeedReader { current: Some(next), ..self }
            },
            None => FeedReader { current: None, ..self },
        }
    }

    /// Takes in one piece of the document.
    pub fn step(self, event: &XmlEvent) -> (r: FeedReader)
        ensures
            r@ == after_piece(self@, event@),
    {
        if self.done {
            return self;
        }
        match event {
            XmlEvent::Start((name, attributes)) => {
                let tag = local_name(name.as_slice());
                let list = list_attributes(attributes.as_slice());
                self.start(tag.as_str(), &list)
            },
            XmlEvent::Empty((name, attributes)) => {
                let tag = local_name(name.as_slice());
                let list = list_attributes(attributes.as_slice());
                self.empty(tag.as_str(), &list)
            },
            XmlEvent::End(name) => {
                let tag = local_name(name.as_slice());
                self.end(tag.as_str())
            },
            XmlEvent::Text(value) => {
                let text = match value {
                    Some(t) => t.clone(),
                    None => String::new(),
                };
                assert(text@ =~= match opt_text(*value) { Some(t) => t, None => Seq::empty() });
                self.text(text)
            },
            XmlEvent::CData(bytes) => self.text(utf8_lossy(bytes.as_slice())),
            XmlEvent::Other => self,
            XmlEvent::Eof => FeedReader { done: true, ..self },
            XmlEvent::Malformed => FeedReader { done: true, ..self },
        }
    }
}

/// Reads the entries of an RSS 2.0 or Atom feed. Tags go by their names without prefixes; what
/// stands before a fault in the document counts.
pub fn parse_feed(xml: &str) -> (r: Vec<FeedItem>)
    ensures
        item_views(r@) == read_pieces(xml_pieces(xml@)).items,
{
    let mut reader = open_xml(xml);
    let ghost all = xml_pieces(xml@);
    let mut state = FeedReader::new();
    let ghost mut n: int = 0;
    let mut more = true;
    assert(all.skip(0) =~= all);
    assert(all.take(0) =~= Seq::<XmlPiece>::empty());
    while more
        invariant
            0 <= n <= all.len(),
            ends_once(all),
            pieces_left(reader) == all.skip(n),
            state@ == read_pieces(all.take(n)),
            more == (n < all.len()),
        decreases all.len() - n,
    {
        let event = next_event(&mut reader);
        proof {
            assert(all.skip(n)[0] == all[n]);
            assert(all.skip(n).skip(1) =~= all.skip(n + 1));
            assert(all.take(n + 1).drop_last() =~= all.take(n));
            assert(all.take(n + 1).last() == event@);
        }
        state = state.step(&event);
        more = match event {
            XmlEvent::Eof => false,
            XmlEvent::Malformed => false,
            _ => true,
        };
        proof {
            assert(is_last_piece(event@) == (n == all.len() - 1));
            n = n + 1;
        }
    }
    assert(all.take(all.len() as int) =~= all);
    state.items
}

// ----- choosing from a feed -----

/// A mark behind which an address has its query or its fragment.
pub open spec fn ends_path(c: char) -> bool {
    c == '?' || c == '#'
}

/// The part of an address before its query and its fragment.
pub open spec fn is_address_path(uri: Seq<char>, path: Seq<char>) -> bool {
    &&& path.len() <= uri.len()
    &&& path == uri.take(path.len() as int)
    &&& forall|i: int| 0 <= i < path.len() ==> !ends_path(#[trigger] uri[i])
    &&& path.len() < uri.len() ==> ends_path(uri[path.len() as int])
}

/// An address of a torrent: a magnet link, or a path that ends in `.torrent`.
pub open spec fn torrent_address(uri: Seq<char>) -> bool {
    ||| has_prefix(uri, "magnet:"@)
    ||| exists|path: Seq<char>| #[trigger]
        is_address_path(uri, path) && has_suffix(path, ".torrent"@)
}

/// Whether an address is one of a torrent and not of a page.
pub fn looks_like_torrent(uri: &str) -> (r: bool)
    ensures
        r == torrent_address(uri@),
{
    if starts_with(uri, "magnet:") {
        return true;
    }
    let v = chars_of(uri);
    let mut cut: usize = 0;
    while cut < v.len() && v[cut] != '?' && v[cut] != '#'
        invariant
            cut <= v@.len(),
            forall|i: int| 0 <= i < cut ==> !ends_path(#[trigger] v@[i]),
        decreases v@.len() - cut,
    {
        cut = cut + 1;
    }
    let path = string_of(v.as_slice(), 0, cut);
    proof {
        assert(path@ =~= uri@.take(cut as int));
        assert(is_address_path(uri@, path@));
        assert forall|other: Seq<char>| #[trigger]
            is_address_path(uri@, other) implies other == path@ by {
            if other.len() < cut {
                assert(ends_path(uri@[other.len() as int]));
            }
            if cut < other.len() {
                assert(ends_path(uri@[cut as int]));
            }
        }
    }
    ends_with(path.as_str(), ".torrent")
}

/// What an entry is known by: its id, or its address where it has none.
pub open spec fn item_key(item: ItemView) -> Seq<char> {
    match item.guid {
        Some(guid) => guid,
        None => match item.uri {
            Some(uri) => uri,
            None => Seq::empty(),
        },
    }
}

/// A filter that is not blank.
pub open spec fn has_filter(filter: Seq<char>) -> bool {
    trim(filter).len() > 0
}

/// The entry is to be added: it is new, has the address of a torrent, and its title passes the
/// filter.
pub open spec fn wanted(item: ItemView, filter: Seq<char>, seen: RssSeen) -> bool {
    &&& item_key(item).len() > 0
    &&& !seen.seen.has(item_key(item))
    &&& item.uri matches Some(uri) && torrent_address(uri)
    &&& has_filter(filter) ==> regex_matches(filter, item.title)
}

/// The keys and addresses of the entries to add, in order.
pub open spec fn wanted_items(items: Seq<ItemView>, filter: Seq<char>, seen: RssSeen) -> Seq<
    (Seq<char>, Seq<char>),
>
    decreases items.len(),
{
    if items.len() == 0 {
        Seq::empty()
    } else {
        let before = wanted_items(items.drop_last(), filter, seen);
        let item = items.last();
        if wanted(item, filter, seen) {
            before.push((item_key(item), item.uri->0))
        } else {
            before
        }
    }
}

/// Pairs of texts as plain values.
pub open spec fn pair_views(v: Seq<(String, String)>) -> Seq<(Seq<char>, Seq<char>)> {
    v.map_values(|p: (String, String)| (p.0@, p.1@))
}

/// Chooses the entries to add, as pairs of their keys and addresses.
pub fn choose_items(items: &Vec<FeedItem>, filter: &str, seen: &RssSeen) -> (r: Result<
    Vec<(String, String)>,
    String,
>)
    requires
        seen.wf(),
    ensures
        match r {
            Ok(list) => (has_filter(filter@) ==> regex_failure(filter@) is None) && pair_views(
                list@,
            ) == wanted_items(item_views(items@), filter@, *seen),
            Err(reason) => has_filter(filter@) && regex_failure(filter@) is Some && reason@
                == "compile filter regex: "@ + filter@,
        },
{
    let bare = trimmed(filter);
    let filtered = !is_empty(bare.as_str());
    if filtered {
        if let Some(_) = check_regex(filter) {
            return Err(concat2("compile filter regex: ", filter));
        }
    }
    let ghost all = item_views(items@);
    let mut out: Vec<(String, String)> = Vec::new();
    let mut i: usize = 0;
    assert(all.take(0) =~= Seq::<ItemView>::empty());
    assert(pair_views(out@) =~= Seq::<(Seq<char>, Seq<char>)>::empty());
    while i < items.len()
        invariant
            i <= items@.len(),
            all == item_views(items@),
            seen.wf(),
            filtered == has_filter(filter@),
            filtered ==> regex_failure(filter@) is None,
            pair_views(out@) == wanted_items(all.take(i as int), filter@, *seen),
        decreases items@.len() - i,
    {
        let item = &items[i];
        proof {
            assert(all.take(i as int + 1).drop_last() =~= all.take(i as int));
            assert(all.take(i as int + 1).last() == item@);
        }
        let key = match &item.guid {
            Some(guid) => guid.clone(),
            None => match &item.uri {
                Some(uri) => uri.clone(),
                None => String::new(),
            },
        };
        assert(key@ =~= item_key(item@));
        if let Some(uri) = &item.uri {
            if !is_empty(key.as_str()) && !seen.contains(key.as_str()) && looks_like_torrent(
                uri.as_str(),
            ) && (!filtered || regex_is_match(filter, item.title.as_str())) {
                let ghost before = out@;
                out.push((key, uri.clone()));
                assert(pair_views(out@) =~= pair_views(before).push((key@, uri@)));
            }
        }
        i = i + 1;
    }
    assert(all.take(all.len() as int) =~= all);
    Ok(out)
}

/// Reads a feed that was fetched and chooses what to add from it, as pairs of the key by which
/// an entry is known and its address. `fetched` is `None` where the feed could not be fetched.
pub fn poll_feed(feed: &RssFeed, seen: &RssSeen, fetched: Option<&str>) -> (r: Result<
    Vec<(String, String)>,
    String,
>)
    requires
        seen.wf(),
    ensures
        match r {
            Ok(list) => {
                &&& fetched is Some
                &&& has_filter(feed.filter@) ==> regex_failure(feed.filter@) is None
                &&& pair_views(list@) == wanted_items(
                    read_pieces(xml_pieces(fetched->0@)).items,
                    feed.filter@,
                    *seen,
                )
            },
            Err(reason) => match fetched {
                None => reason@ == "fetch feed "@ + feed.url@,
                Some(_) => has_filter(feed.filter@) && regex_failure(feed.filter@) is Some
                    && reason@ == "compile filter regex: "@ + feed.filter@,
            },
        },
{
    match fetched {
        None => Err(concat2("fetch feed ", feed.url.as_str())),
        Some(xml) => {
            let items = parse_feed(xml);
            choose_items(&items, feed.filter.as_str(), seen)
        },
    }
}

/// Nothing that was added before is chosen again, and everything chosen is the address of a
/// torrent.
pub proof fn law_chosen_items_are_new(items: Seq<ItemView>, filter: Seq<char>, seen: RssSeen)
    ensures
        forall|i: int|
            0 <= i < wanted_items(items, filter, seen).len() ==> {
                let (key, uri) = #[trigger] wanted_items(items, filter, seen)[i];
                key.len() > 0 && !seen.seen.has(key) && torrent_address(uri)
            },
    decreases items.len(),
{
    if items.len() > 0 {
        law_chosen_items_are_new(items.drop_last(), filter, seen);
        let before = wanted_items(items.drop_last(), filter, seen);
        let all = wanted_items(items, filter, seen);
        assert forall|i: int| 0 <= i < all.len() implies ({
            let (key, uri) = #[trigger] all[i];
            key.len() > 0 && !seen.seen.has(key) && torrent_address(uri)
        }) by {
            if i < before.len() {
                assert(all[i] == before[i]);
            }
        }
    }
}

} // verus!
