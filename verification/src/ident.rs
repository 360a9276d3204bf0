//! Content-derived identifiers of chat messages.
//!
//! The identifier of a message is text: the time of publication in seconds,
//! ten digits wide, followed by the first sixteen bytes of a 256-bit digest
//! of the payload, each written as a decimal number. The digest is the one
//! that the `sha3_rust` crate computes under the name `sha3_256`. The transport
//! carries it as a message id; the receiver takes it apart again and
//! compares the digest with one it computes itself.

use crate::text::{
    all_digits, decimal, digits_value, fixed_decimal, is_digit, lemma_fixed_decimal_shape,
    lemma_fixed_decimal_value, parse_fixed_decimal, pow10, push_decimal, push_fixed_decimal,
    same_text,
};
use libp2p::gossipsub::MessageId;
use vstd::prelude::*;
use vstd::string::*;
use vstd::utf8::*;

verus! {

/// How many bytes of the digest go into an identifier.
pub const DIGEST_PREFIX_LEN: usize = 16;

/// How many characters of an identifier hold the time.
pub const TIMESTAMP_WIDTH: usize = 10;

/// The first time that no longer fits in `TIMESTAMP_WIDTH` digits.
pub const TIMESTAMP_LIMIT: u64 = 10_000_000_000;

/// The message id type of the gossipsub transport: a string of bytes.
#[verifier::external_type_specification]
#[verifier::external_body]
pub struct ExMessageId(MessageId);

/// A name for the bytes that a message id holds.
pub uninterp spec fn message_id_bytes(id: MessageId) -> Seq<u8>;

/// A name for the 32 bytes that `sha3_rust::sha3_256` returns for `data`.
pub uninterp spec fn sha3_256_digest(data: Seq<u8>) -> Seq<u8>;

/// `sha3_rust::sha3_256`: 32 bytes that depend on `data` alone. The function
/// counts the bits of its input in a `usize`, so the input must be short
/// enough for that.
#[verifier::external_body]
fn sha3_256(data: &[u8]) -> (digest: [u8; 32])
    requires
        data@.len() * 8 <= usize::MAX,
    ensures
        digest@ == sha3_256_digest(data@),
{
    sha3_rust::sha3_256(data)
}

/// `MessageId::from` of a `String`: the id holds the bytes of the text.
#[verifier::external_body]
fn message_id_from_text(text: String) -> (id: MessageId)
    ensures
        message_id_bytes(id) == encode_utf8(text@),
{
    MessageId::from(text)
}

/// `MessageId`'s `Display`: every byte of the id as two lower-case
/// hexadecimal digits, in order.
#[verifier::external_body]
fn message_id_hex(id: &MessageId) -> (text: String)
    ensures
        text@ == lower_hex(message_id_bytes(*id)),
{
    id.to_string()
}

/// The character of one hexadecimal digit, lower case.
pub open spec fn hex_digit(n: int) -> char {
    if n < 10 {
        (48 + n) as char
    } else {
        (87 + n) as char
    }
}

/// Bytes written as hexadecimal text, two digits for each byte.
pub open spec fn lower_hex(bytes: Seq<u8>) -> Seq<char> {
    Seq::new(
        2 * bytes.len(),
        |i: int|
            hex_digit(
                if i % 2 == 0 {
                    bytes[i / 2] as int / 16
                } else {
                    bytes[i / 2] as int % 16
                },
            ),
    )
}

/// Every second character of `s`: those at the odd indices.
pub open spec fn every_second(s: Seq<char>) -> Seq<char> {
    Seq::new(s.len() / 2, |i: int| s[2 * i + 1])
}

/// Bytes written as decimal numbers, one after the other with nothing between.
pub open spec fn render_bytes(bytes: Seq<u8>) -> Seq<char>
    decreases bytes.len(),
{
    if bytes.len() == 0 {
        Seq::empty()
    } else {
        render_bytes(bytes.drop_last()) + decimal(bytes.last() as nat)
    }
}

/// The digest part of the identifier of `payload`.
pub open spec fn digest_text(payload: Seq<u8>) -> Seq<char> {
    render_bytes(sha3_256_digest(payload).take(DIGEST_PREFIX_LEN as int))
}

/// The time part of an identifier: ten digits, padded with zeros on the
/// left. A time too large for ten digits is written in full.
pub open spec fn timestamp_text(time: nat) -> Seq<char> {
    if time < TIMESTAMP_LIMIT {
        fixed_decimal(time, TIMESTAMP_WIDTH as nat)
    } else {
        decimal(time)
    }
}

/// The identifier of `payload` published at `time`.
pub open spec fn identifier_text(time: nat, payload: Seq<u8>) -> Seq<char> {
    timestamp_text(time) + digest_text(payload)
}

/// The part of an identifier that holds the time.
pub open spec fn time_portion(id: Seq<char>) -> Seq<char> {
    id.take(TIMESTAMP_WIDTH as int)
}

/// The part of an identifier that holds the digest: what follows the time.
pub open spec fn hash_portion(id: Seq<char>) -> Seq<char> {
    id.skip(TIMESTAMP_WIDTH as int)
}

/// Whether an identifier can be taken apart: it is long enough to hold a
/// time, and its time part is all digits.
pub open spec fn is_identifier(id: Seq<char>) -> bool {
    TIMESTAMP_WIDTH <= id.len() && all_digits(time_portion(id))
}

/// The decimal rendering of a number is all digits.
pub proof fn lemma_decimal_digits(n: nat)
    ensures
        all_digits(decimal(n)),
        decimal(n).len() >= 1,
    decreases n,
{
    if n >= 10 {
        lemma_decimal_digits(n / 10);
    }
}

/// Bytes rendered as decimal numbers are all digits.
pub proof fn lemma_render_bytes_digits(bytes: Seq<u8>)
    ensures
        all_digits(render_bytes(bytes)),
    decreases bytes.len(),
{
    if bytes.len() > 0 {
        lemma_render_bytes_digits(bytes.drop_last());
        lemma_decimal_digits(bytes.last() as nat);
    }
}

/// An identifier is all digits.
pub proof fn lemma_identifier_digits(time: nat, payload: Seq<u8>)
    ensures
        all_digits(identifier_text(time, payload)),
{
    lemma_fixed_decimal_shape(time, TIMESTAMP_WIDTH as nat);
    lemma_decimal_digits(time);
    lemma_render_bytes_digits(sha3_256_digest(payload).take(DIGEST_PREFIX_LEN as int));
}

/// An identifier made at a time that fits in ten digits comes apart into
/// that time and the digest of its payload: a receiver that computes the
/// digest of the same payload finds it equal to the one in the identifier.
pub proof fn lemma_fresh_identifier_verifies(time: nat, payload: Seq<u8>)
    requires
        time < TIMESTAMP_LIMIT,
    ensures
        is_identifier(identifier_text(time, payload)),
        digits_value(time_portion(identifier_text(time, payload))) == time,
        hash_portion(identifier_text(time, payload)) == digest_text(payload),
{
    let stamp = fixed_decimal(time, TIMESTAMP_WIDTH as nat);
    let id = identifier_text(time, payload);
    lemma_fixed_decimal_shape(time, TIMESTAMP_WIDTH as nat);
    assert(time_portion(id) =~= stamp);
    assert(hash_portion(id) =~= digest_text(payload));
    assert(pow10(10) == TIMESTAMP_LIMIT) by {
        reveal_with_fuel(pow10, 11);
    }
    lemma_fixed_decimal_value(time, TIMESTAMP_WIDTH as nat);
}

/// Text of digits, sent as the bytes of a message id and written out in
/// hexadecimal, is found again in every second character.
pub proof fn lemma_digits_survive_hex(text: Seq<char>)
    requires
        all_digits(text),
    ensures
        every_second(lower_hex(encode_utf8(text))) == text,
{
    assert(is_ascii_chars(text)) by {
        assert forall|i: int| 0 <= i < text.len() implies '\0' <= #[trigger] text[i]
            <= '\u{7f}' by {
            assert(is_digit(text[i]));
        }
    }
    is_ascii_chars_encode_utf8(text);
    let bytes = encode_utf8(text);
    let kept = every_second(lower_hex(bytes));
    assert(kept.len() == text.len());
    assert forall|i: int| 0 <= i < text.len() implies kept[i] == text[i] by {
        assert(is_digit(text[i]));
        assert(bytes[i] == text[i] as u8);
        assert((2 * i + 1) / 2 == i);
        assert((2 * i + 1) % 2 == 1);
    }
    assert(kept =~= text);
}

/// Writes the first sixteen bytes of a digest as decimal numbers.
pub fn render_prefix(digest: &[u8; 32]) -> (text: String)
    ensures
        text@ == render_bytes(digest@.take(DIGEST_PREFIX_LEN as int)),
{
    let mut text: String = String::new();
    let mut i: usize = 0;
    while i < DIGEST_PREFIX_LEN
        invariant
            i <= DIGEST_PREFIX_LEN,
            text@ == render_bytes(digest@.take(i as int)),
        decreases DIGEST_PREFIX_LEN - i,
    {
        proof {
            assert(digest@.take(i + 1).drop_last() =~= digest@.take(i as int));
        }
        push_decimal(&mut text, digest[i] as u64);
        i = i + 1;
    }
    text
}

/// The digest part of the identifier of `payload`.
pub fn digest_prefix_text(payload: &[u8]) -> (text: String)
    requires
        payload@.len() * 8 <= usize::MAX,
    ensures
        text@ == digest_text(payload@),
{
    let digest: [u8; 32] = sha3_256(payload);
    render_prefix(&digest)
}

/// Puts the time before the digest part to make an identifier.
pub fn compose_identifier(time: u64, digest: &str) -> (id: String)
    ensures
        id@ == timestamp_text(time as nat) + digest@,
{
    let mut id: String = String::new();
    if time < TIMESTAMP_LIMIT {
        push_fixed_decimal(&mut id, time, TIMESTAMP_WIDTH);
    } else {
        push_decimal(&mut id, time);
    }
    id.append(digest);
    id
}

/// The id under which the transport knows `payload` when it is published at `time`.
pub fn message_id(time: u64, payload: &[u8]) -> (id: MessageId)
    requires
        payload@.len() * 8 <= usize::MAX,
    ensures
        message_id_bytes(id) == encode_utf8(identifier_text(time as nat, payload@)),
{
    let digest: String = digest_prefix_text(payload);
    let text: String = compose_identifier(time, digest.as_str());
    message_id_from_text(text)
}

/// The text of a message id as the transport hands it over: every second
/// character of its hexadecimal form. For an id made by `message_id` this
/// is the identifier itself.
pub fn sane_id(id: MessageId) -> (text: String)
    ensures
        text@ == every_second(lower_hex(message_id_bytes(id))),
{
    let hex: String = message_id_hex(&id);
    keep_every_second(hex.as_str())
}

/// Keeps the characters of `s` at the odd indices.
pub fn keep_every_second(s: &str) -> (kept: String)
    ensures
        kept@ == every_second(s@),
{
    let mut kept: String = String::new();
    let mut keep: bool = false;
    for c in it: s.chars()
        invariant
            it.seq() == s@,
            keep <==> it.index() % 2 == 1,
            kept@.len() == it.index() / 2,
            forall|j: int| 0 <= j < kept@.len() ==> kept@[j] == s@[2 * j + 1],
    {
        if keep {
            kept.push(c);
        }
        keep = !keep;
    }
    assert(kept@ =~= every_second(s@));
    kept
}

/// Takes an identifier apart into its time and its digest part.
/// Succeeds exactly when the identifier has at least ten characters and the
/// first ten are digits.
pub fn split_identifier(id: &str) -> (parts: Option<(u64, String)>)
    ensures
        parts is Some <==> is_identifier(id@),
        parts matches Some((time, hash)) ==> time as nat == digits_value(time_portion(id@))
            && hash@ == hash_portion(id@),
{
    match parse_fixed_decimal(id, TIMESTAMP_WIDTH) {
        None => None,
        Some(time) => {
            let len: usize = id.unicode_len();
            let hash: String = String::from_str(id.substring_char(TIMESTAMP_WIDTH, len));
            assert(hash@ =~= hash_portion(id@));
            Some((time, hash))
        },
    }
}

/// Whether the digest part of a received identifier is the one that
/// `payload` gives.
pub fn digest_matches(payload: &[u8], received: &str) -> (same: bool)
    requires
        payload@.len() * 8 <= usize::MAX,
    ensures
        same == (received@ == digest_text(payload@)),
{
    let computed: String = digest_prefix_text(payload);
    same_text(received, computed.as_str())
}

} // verus!
