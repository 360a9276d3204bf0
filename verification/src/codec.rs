//! Wire framing of chat messages.
//!
//! A payload is text cut into fields by a two-character separator. The first
//! message of a session carries the sender's address, the sender's username
//! and the text; every later message carries the address and the text only.
//! The separator is not escaped: the fields are cut at its first occurrences,
//! so the last field may hold it.

use vstd::prelude::*;
use vstd::string::*;
use vstd::utf8::*;

verus! {

/// The separator between the fields of a payload.
pub open spec fn separator() -> Seq<char> {
    seq!['*', '@']
}

/// Whether the separator stands in `s` at index `i`.
pub open spec fn separator_at(s: Seq<char>, i: int) -> bool {
    0 <= i && i + 1 < s.len() && s[i] == '*' && s[i + 1] == '@'
}

/// The index of the first separator in `s` at or after `from`, or the length
/// of `s` where there is none.
pub open spec fn next_separator(s: Seq<char>, from: int) -> int
    decreases s.len() - from,
{
    if from < 0 || from + 1 >= s.len() {
        s.len() as int
    } else if separator_at(s, from) {
        from
    } else {
        next_separator(s, from + 1)
    }
}

/// Whether `s` holds the separator anywhere.
pub open spec fn has_separator(s: Seq<char>) -> bool {
    next_separator(s, 0) < s.len()
}

/// What stands before the first separator of `s`; all of `s` where it holds none.
pub open spec fn head(s: Seq<char>) -> Seq<char> {
    s.take(next_separator(s, 0))
}

/// What stands after the first separator of `s`. Only meaningful where `s` holds one.
pub open spec fn tail(s: Seq<char>) -> Seq<char> {
    s.skip(next_separator(s, 0) + 2)
}

/// The payload of the first message of a session.
pub open spec fn first_payload(address: Seq<char>, username: Seq<char>, text: Seq<char>) -> Seq<
    char,
> {
    address + separator() + username + separator() + text
}

/// The payload of every later message of a session.
pub open spec fn next_payload(address: Seq<char>, text: Seq<char>) -> Seq<char> {
    address + separator() + text
}

/// Whether `payload` can be read as a first message: it holds two separators.
pub open spec fn is_first_payload(payload: Seq<char>) -> bool {
    has_separator(payload) && has_separator(tail(payload))
}

/// Whether `payload` can be read as a later message: it holds a separator.
pub open spec fn is_next_payload(payload: Seq<char>) -> bool {
    has_separator(payload)
}

/// A name for what `String::from_utf8_lossy` makes of bytes that are not valid UTF-8.
pub uninterp spec fn lossy_decode(bytes: Seq<u8>) -> Seq<char>;

/// The text of a payload received as bytes: its decoding where the bytes are
/// valid UTF-8, and a lossy substitute otherwise.
pub open spec fn text_of(bytes: Seq<u8>) -> Seq<char> {
    if valid_utf8(bytes) {
        decode_utf8(bytes)
    } else {
        lossy_decode(bytes)
    }
}

/// The fields of a first message.
#[derive(Debug, PartialEq, Eq)]
pub struct FirstFrame {
    pub address: String,
    pub username: String,
    pub text: String,
}

/// The fields of a later message.
#[derive(Debug, PartialEq, Eq)]
pub struct NextFrame {
    pub address: String,
    pub text: String,
}

/// Where no separator stands in `[from, at)` and one stands at `at`, the
/// search from `from` finds `at`.
pub proof fn lemma_next_separator_found(s: Seq<char>, from: int, at: int)
    requires
        0 <= from <= at,
        separator_at(s, at),
        forall|j: int| from <= j < at ==> !separator_at(s, j),
    ensures
        next_separator(s, from) == at,
    decreases at - from,
{
    if from < at {
        lemma_next_separator_found(s, from + 1, at);
    }
}

/// Where no separator stands at or after `from`, the search gives the length.
pub proof fn lemma_next_separator_none(s: Seq<char>, from: int)
    requires
        0 <= from,
        forall|j: int| from <= j ==> !separator_at(s, j),
    ensures
        next_separator(s, from) == s.len(),
    decreases s.len() - from,
{
    if from + 1 < s.len() {
        lemma_next_separator_none(s, from + 1);
    }
}

/// What the search gives: an index at which the separator stands, with none
/// before it, or the length with none at all.
pub proof fn lemma_next_separator_is_first(s: Seq<char>, from: int)
    requires
        0 <= from,
    ensures
        from <= next_separator(s, from) || next_separator(s, from) == s.len(),
        next_separator(s, from) <= s.len(),
        next_separator(s, from) < s.len() ==> separator_at(s, next_separator(s, from)),
        forall|j: int| from <= j < next_separator(s, from) ==> !separator_at(s, j),
    decreases s.len() - from,
{
    if from + 1 < s.len() && !separator_at(s, from) {
        lemma_next_separator_is_first(s, from + 1);
    }
}

/// A field without a separator, followed by a separator and anything else,
/// is found again as the head, and the rest as the tail.
pub proof fn lemma_head_tail_of_joined(field: Seq<char>, rest: Seq<char>)
    requires
        !has_separator(field),
    ensures
        has_separator(field + separator() + rest),
        head(field + separator() + rest) == field,
        tail(field + separator() + rest) == rest,
{
    let joined = field + separator() + rest;
    let n = field.len() as int;
    lemma_next_separator_is_first(field, 0);
    assert(joined[n] == '*');
    assert(joined[n + 1] == '@');
    assert forall|j: int| 0 <= j < n implies !separator_at(joined, j) by {
        if j + 1 < n {
            assert(joined[j] == field[j]);
            assert(joined[j + 1] == field[j + 1]);
            assert(!separator_at(field, j));
        }
    }
    lemma_next_separator_found(joined, 0, n);
    assert(joined.take(n) =~= field);
    assert(joined.skip(n + 2) =~= rest);
}

/// Decoding the payload of a first message gives its fields back, whenever
/// neither the address nor the username holds the separator.
pub proof fn lemma_first_round_trip(address: Seq<char>, username: Seq<char>, text: Seq<char>)
    requires
        !has_separator(address),
        !has_separator(username),
    ensures
        is_first_payload(first_payload(address, username, text)),
        head(first_payload(address, username, text)) == address,
        head(tail(first_payload(address, username, text))) == username,
        tail(tail(first_payload(address, username, text))) == text,
{
    let rest = username + separator() + text;
    assert(first_payload(address, username, text) =~= address + separator() + rest);
    lemma_head_tail_of_joined(address, rest);
    lemma_head_tail_of_joined(username, text);
}

/// Decoding the payload of a later message gives its fields back, whenever
/// the address does not hold the separator. The text may hold it.
pub proof fn lemma_next_round_trip(address: Seq<char>, text: Seq<char>)
    requires
        !has_separator(address),
    ensures
        is_next_payload(next_payload(address, text)),
        head(next_payload(address, text)) == address,
        tail(next_payload(address, text)) == text,
{
    lemma_head_tail_of_joined(address, text);
}

/// Text that was sent as bytes is read back unchanged.
pub proof fn lemma_text_of_bytes(text: Seq<char>)
    ensures
        text_of(encode_utf8(text)) == text,
{
    encode_utf8_valid_utf8(text);
    encode_utf8_decode_utf8(text);
}

/// Builds the payload of the first message of a session.
pub fn encode_first(address: &str, username: &str, text: &str) -> (payload: String)
    ensures
        payload@ == first_payload(address@, username@, text@),
{
    proof {
        reveal_strlit("*@");
    }
    assert("*@"@ =~= separator());
    let mut payload: String = String::from_str(address);
    payload.append("*@");
    payload.append(username);
    payload.append("*@");
    payload.append(text);
    payload
}

/// Builds the payload of a later message of a session.
pub fn encode_next(address: &str, text: &str) -> (payload: String)
    ensures
        payload@ == next_payload(address@, text@),
{
    proof {
        reveal_strlit("*@");
    }
    assert("*@"@ =~= separator());
    let mut payload: String = String::from_str(address);
    payload.append("*@");
    payload.append(text);
    payload
}

/// Finds the first separator of `s`: its index, or the length of `s` where
/// there is none.
pub fn find_separator(s: &str) -> (at: usize)
    ensures
        at == next_separator(s@, 0),
{
    let len: usize = s.unicode_len();
    let mut found: Option<usize> = None;
    let mut after_star: bool = false;
    let mut index: usize = 0;
    for c in it: s.chars()
        invariant
            it.seq() == s@,
            index == it.index(),
            index <= s@.len() == len,
            after_star <==> (index > 0 && s@[index - 1] == '*'),
            match found {
                Some(at) => separator_at(s@, at as int) && forall|j: int|
                    0 <= j < at ==> !separator_at(s@, j),
                None => forall|j: int| 0 <= j && j + 1 < index ==> !separator_at(s@, j),
            },
    {
        if found.is_none() && after_star && c == '@' {
            found = Some(index - 1);
        }
        after_star = c == '*';
        index = index + 1;
    }
    match found {
        Some(at) => {
            proof {
                lemma_next_separator_found(s@, 0, at as int);
            }
            at
        },
        None => {
            proof {
                lemma_next_separator_none(s@, 0);
            }
            index
        },
    }
}

/// What stands before the first separator of a payload: the sender's address.
pub fn sender_address(payload: &str) -> (address: String)
    ensures
        address@ == head(payload@),
{
    let at: usize = find_separator(payload);
    proof {
        lemma_next_separator_is_first(payload@, 0);
    }
    String::from_str(payload.substring_char(0, at))
}

/// Cuts `s` at its first separator. Gives both sides exactly when `s` holds one.
pub fn split_once(s: &str) -> (parts: Option<(String, String)>)
    ensures
        parts is Some <==> has_separator(s@),
        parts is Some ==> parts.unwrap().0@ == head(s@) && parts.unwrap().1@ == tail(s@),
{
    let len: usize = s.unicode_len();
    let at: usize = find_separator(s);
    proof {
        lemma_next_separator_is_first(s@, 0);
    }
    if at >= len {
        return None;
    }
    let before: String = String::from_str(s.substring_char(0, at));
    let after: String = String::from_str(s.substring_char(at + 2, len));
    assert(after@ =~= tail(s@));
    Some((before, after))
}

/// Reads a payload as a first message: address, username, text.
/// Succeeds exactly when the payload holds two separators.
pub fn decode_first(payload: &str) -> (frame: Option<FirstFrame>)
    ensures
        frame is Some <==> is_first_payload(payload@),
        frame matches Some(f) ==> f.address@ == head(payload@) && f.username@ == head(
            tail(payload@),
        ) && f.text@ == tail(tail(payload@)),
{
    match split_once(payload) {
        None => None,
        Some((address, rest)) => match split_once(rest.as_str()) {
            None => None,
            Some((username, text)) => Some(FirstFrame { address, username, text }),
        },
    }
}

/// Reads a payload as a later message: address, then the text verbatim.
/// Succeeds exactly when the payload holds a separator.
pub fn decode_next(payload: &str) -> (frame: Option<NextFrame>)
    ensures
        frame is Some <==> is_next_payload(payload@),
        frame matches Some(f) ==> f.address@ == head(payload@) && f.text@ == tail(payload@),
{
    match split_once(payload) {
        None => None,
        Some((address, text)) => Some(NextFrame { address, text }),
    }
}

/// `String::from_utf8_lossy` of the standard library: bytes that are valid
/// UTF-8 give the text they encode, and any other bytes give a text that
/// depends on the bytes alone.
#[verifier::external_body]
fn lossy_text(bytes: &[u8]) -> (text: String)
    ensures
        valid_utf8(bytes@) ==> text@ == decode_utf8(bytes@),
        !valid_utf8(bytes@) ==> text@ == lossy_decode(bytes@),
{
    String::from_utf8_lossy(bytes).into_owned()
}

/// The text of a payload received as bytes. Never fails: bytes that are not
/// valid text are replaced rather than refused.
pub fn payload_text(bytes: &[u8]) -> (text: String)
    ensures
        text@ == text_of(bytes@),
{
    lossy_text(bytes)
}

/// The bytes that carry a payload on the wire.
pub fn payload_bytes(payload: &str) -> (bytes: Vec<u8>)
    ensures
        bytes@ == encode_utf8(payload@),
{
    payload.as_bytes_vec()
}

} // verus!
