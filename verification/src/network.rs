//! Who may speak to the daemon over the network, and what they may ask.

use crate::ipc::{Request, Response};
use crate::text::{
    concat2, has_prefix, is_empty, is_space, strip_prefix, trim, trim_back, trim_front, trimmed,
};
use vstd::prelude::*;
use vstd::utf8::{encode_utf8, encode_utf8_decode_utf8};

verus! {

/// Whether two tokens are the same. The time that the comparison takes does not depend on where
/// they differ.
pub fn token_eq(left: &str, right: &str) -> (r: bool)
    ensures
        r == (left@ == right@),
{
    let a = left.as_bytes();
    let b = right.as_bytes();
    proof {
        encode_utf8_decode_utf8(left@);
        encode_utf8_decode_utf8(right@);
        assert(a@ == b@ <==> left@ == right@);
    }
    if a.len() != b.len() {
        return false;
    }
    let mut accumulated: u8 = 0;
    let mut i: usize = 0;
    while i < a.len()
        invariant
            i <= a@.len(),
            a@.len() == b@.len(),
            accumulated == 0 <==> (forall|j: int| 0 <= j < i ==> a@[j] == b@[j]),
        decreases a@.len() - i,
    {
        let x: u8 = a[i];
        let y: u8 = b[i];
        let before: u8 = accumulated;
        accumulated = accumulated | (x ^ y);
        assert((before | (x ^ y)) == 0 <==> (before == 0 && x == y)) by (bit_vector);
        i = i + 1;
    }
    assert((forall|j: int| 0 <= j < a@.len() ==> a@[j] == b@[j]) <==> a@ =~= b@);
    accumulated == 0
}

/// The token that the first line of a connection carries: what follows `AUTH `. A line that does
/// not begin so carries none.
pub open spec fn offered_token(line: Seq<char>) -> Option<Seq<char>> {
    if has_prefix(trim(line), "AUTH "@) {
        Some(trim(line).skip("AUTH "@.len() as int))
    } else {
        None
    }
}

/// Whether the first line of a connection carries the token.
pub fn authorises(line: &str, expected: &str) -> (r: bool)
    ensures
        r == (offered_token(line@) == Some(expected@)),
{
    let bare = trimmed(line);
    match strip_prefix(bare.as_str(), "AUTH ") {
        Some(token) => token_eq(token.as_str(), expected),
        None => false,
    }
}

/// The line that a client sends first.
pub fn auth_line(token: &str) -> (r: String)
    ensures
        r@ == "AUTH "@ + token@ + "\n"@,
{
    crate::text::concat3("AUTH ", token, "\n")
}

/// What a line that was received holds.
#[derive(Debug, Clone, PartialEq, Eq)]
pub enum Incoming {
    /// nothing: the connection is closed without an answer
    Nothing,
    /// the text of a request
    Text(String),
}

/// What a line that was received holds.
pub fn read_incoming(line: &str) -> (r: Incoming)
    ensures
        match r {
            Incoming::Nothing => trim(line@).len() == 0,
            Incoming::Text(text) => trim(line@).len() > 0 && text@ == trim(line@),
        },
{
    let bare = trimmed(line);
    if is_empty(bare.as_str()) {
        Incoming::Nothing
    } else {
        Incoming::Text(bare)
    }
}

/// The answer to a text that is no request.
pub fn bad_request(error: &str) -> (r: Response)
    ensures
        r matches Response::Failed(why) && why@ == "bad request: "@ + error@,
{
    Response::Failed(concat2("bad request: ", error))
}

/// Lets a request through, or answers it at once: the daemon is not shut down from afar.
pub fn screen(request: Request, over_network: bool) -> (r: Result<Request, Response>)
    ensures
        match r {
            Ok(passed) => passed == request && !(over_network && request is Shutdown),
            Err(answer) => over_network && request is Shutdown && (answer matches Response::Failed(
                why,
            ) && why@ == "Shutdown is disallowed over the network"@),
        },
{
    if over_network {
        if let Request::Shutdown = request {
            return Err(Response::Failed("Shutdown is disallowed over the network".to_owned()));
        }
    }
    Ok(request)
}

/// Whether the daemon stops once the request is answered.
pub fn ends_daemon(request: &Request) -> (r: bool)
    ensures
        r == (*request is Shutdown),
{
    if let Request::Shutdown = request {
        true
    } else {
        false
    }
}

/// A hexadecimal digit.
pub open spec fn hex_char(d: int) -> char {
    if d < 10 {
        ((48 + d) as u32) as char
    } else {
        ((87 + d) as u32) as char
    }
}

/// The bytes in hexadecimal, two digits each.
pub open spec fn hex(bytes: Seq<u8>) -> Seq<char>
    decreases bytes.len(),
{
    if bytes.len() == 0 {
        Seq::empty()
    } else {
        hex(bytes.drop_last()).push(hex_char(bytes.last() as int / 16)).push(
            hex_char(bytes.last() as int % 16),
        )
    }
}

/// A hexadecimal digit.
fn hex_digit(d: u8) -> (c: char)
    requires
        d < 16,
    ensures
        c == hex_char(d as int),
{
    let code: u8 = if d < 10 { 48 + d } else { 87 + d };
    code as char
}

/// The byte of `mix` at position `k`, counted from the lowest.
pub open spec fn mix_byte(mix: u128, k: int) -> u8 {
    (mix >> ((k % 16) * 8) as u128) as u8
}

/// A token of random bytes, each mixed with a byte that the clock and the process give, in
/// hexadecimal.
pub fn token_text(bytes: &Vec<u8>, mix: u128) -> (r: String)
    ensures
        r@ == hex(Seq::new(bytes@.len(), |i: int| bytes@[i] ^ mix_byte(mix, i))),
        r@.len() == 2 * bytes@.len(),
{
    let ghost all = Seq::new(bytes@.len(), |i: int| bytes@[i] ^ mix_byte(mix, i));
    let mut out = String::new();
    let mut i: usize = 0;
    assert(all.take(0) =~= Seq::<u8>::empty());
    assert(out@ =~= Seq::<char>::empty());
    while i < bytes.len()
        invariant
            i <= bytes@.len(),
            all == Seq::new(bytes@.len(), |i: int| bytes@[i] ^ mix_byte(mix, i)),
            out@ == hex(all.take(i as int)),
            out@.len() == 2 * i,
        decreases bytes@.len() - i,
    {
        let shift: u128 = ((i % 16) * 8) as u128;
        let part: u8 = #[verifier::truncate]
        ((mix >> shift) as u8);
        let byte: u8 = bytes[i] ^ part;
        proof {
            assert(all.take(i as int + 1).drop_last() =~= all.take(i as int));
            assert(all.take(i as int + 1).last() == byte);
        }
        out.push(hex_digit(byte / 16));
        out.push(hex_digit(byte % 16));
        i = i + 1;
    }
    assert(all.take(all.len() as int) =~= all);
    out
}

/// The line that a client sends carries the client's token, if that does not end in white
/// space.
pub proof fn law_auth_line_authorises(token: Seq<char>)
    requires
        token.len() > 0,
        !is_space(token.last()),
    ensures
        offered_token("AUTH "@ + token + "\n"@) == Some(token),
{
    reveal_strlit("AUTH ");
    reveal_strlit("\n");
    let line = "AUTH "@ + token + "\n"@;
    let body = "AUTH "@ + token;
    assert(line[0] == 'A');
    assert(trim_front(line) == line);
    assert(line.last() == '\n');
    assert(line.drop_last() =~= body);
    assert(body.last() == token.last());
    assert(trim_back(line) == trim_back(body));
    assert(trim_back(body) == body);
    assert(body.subrange(0, 5) =~= "AUTH "@);
    assert(body.skip(5) =~= token);
}

/// Only a line that names the token behind `AUTH ` is let in; with no token set, none is.
pub proof fn law_only_the_token_is_let_in(line: Seq<char>, expected: Seq<char>)
    requires
        offered_token(line) == Some(expected),
    ensures
        trim(line) == "AUTH "@ + expected,
        expected.len() > 0,
{
    reveal_strlit("AUTH ");
    assert(trim(line) =~= trim(line).subrange(0, 5) + trim(line).skip(5));
    lemma_trimmed_end(trim_front(line));
    assert(trim(line).last() == if expected.len() > 0 {
        expected.last()
    } else {
        ' '
    });
}

/// A text whose end was trimmed does not end in white space.
proof fn lemma_trimmed_end(s: Seq<char>)
    ensures
        trim_back(s).len() > 0 ==> !is_space(trim_back(s).last()),
    decreases s.len(),
{
    if s.len() > 0 {
        lemma_trimmed_end(s.drop_last());
    }
}

} // verus!
