use p2p_chat::codec::{
    decode_first, decode_next, encode_first, encode_next, find_separator, payload_bytes,
    payload_text, sender_address, split_once,
};

#[test]
fn first_message_payload() {
    let payload = encode_first("/ip4/127.0.0.1/tcp/0", "alice", "hi");
    assert_eq!(payload, "/ip4/127.0.0.1/tcp/0*@alice*@hi");
}

#[test]
fn later_message_payload() {
    let payload = encode_next("/ip4/127.0.0.1/tcp/0", "how are you");
    assert_eq!(payload, "/ip4/127.0.0.1/tcp/0*@how are you");
}

#[test]
fn first_message_round_trip() {
    let payload = encode_first("A", "bob", "hello");
    let frame = decode_first(&payload).unwrap();
    assert_eq!(frame.address, "A");
    assert_eq!(frame.username, "bob");
    assert_eq!(frame.text, "hello");
}

#[test]
fn later_message_round_trip() {
    let payload = encode_next("A", "how are you");
    let frame = decode_next(&payload).unwrap();
    assert_eq!(frame.address, "A");
    assert_eq!(frame.text, "how are you");
}

#[test]
fn text_may_hold_the_separator() {
    let payload = encode_first("A", "bob", "x*@y*@z");
    let frame = decode_first(&payload).unwrap();
    assert_eq!(frame.address, "A");
    assert_eq!(frame.username, "bob");
    assert_eq!(frame.text, "x*@y*@z");

    let payload = encode_next("A", "x*@y");
    let frame = decode_next(&payload).unwrap();
    assert_eq!(frame.address, "A");
    assert_eq!(frame.text, "x*@y");
}

#[test]
fn separator_in_the_username_moves_the_cut() {
    let payload = encode_first("A", "b*@ob", "hello");
    let frame = decode_first(&payload).unwrap();
    assert_eq!(frame.address, "A");
    assert_eq!(frame.username, "b");
    assert_eq!(frame.text, "ob*@hello");
}

#[test]
fn empty_fields() {
    let frame = decode_first("*@*@").unwrap();
    assert_eq!(frame.address, "");
    assert_eq!(frame.username, "");
    assert_eq!(frame.text, "");
    let frame = decode_next("*@").unwrap();
    assert_eq!(frame.address, "");
    assert_eq!(frame.text, "");
}

#[test]
fn too_few_separators() {
    assert!(decode_first("A*@hello").is_none());
    assert!(decode_first("hello").is_none());
    assert!(decode_first("").is_none());
    assert!(decode_next("hello").is_none());
    assert!(decode_next("hel*lo@").is_none());
    assert!(decode_next("").is_none());
}

#[test]
fn find_separator_gives_the_first() {
    assert_eq!(find_separator("ab*@cd*@"), 2);
    assert_eq!(find_separator("*@"), 0);
    assert_eq!(find_separator("a**@"), 2);
    assert_eq!(find_separator("a*b@"), 4);
    assert_eq!(find_separator("abc*"), 4);
    assert_eq!(find_separator(""), 0);
}

#[test]
fn separator_is_counted_in_characters() {
    assert_eq!(find_separator("héé*@ü"), 3);
    let (before, after) = split_once("héé*@ü").unwrap();
    assert_eq!(before, "héé");
    assert_eq!(after, "ü");
}

#[test]
fn sender_address_is_the_head() {
    assert_eq!(sender_address("A*@bob*@hello"), "A");
    assert_eq!(sender_address("no separator"), "no separator");
    assert_eq!(sender_address(""), "");
}

#[test]
fn split_once_cuts_at_the_first_separator() {
    assert_eq!(split_once("a*@b*@c"), Some(("a".to_string(), "b*@c".to_string())));
    assert_eq!(split_once("abc"), None);
}

#[test]
fn payload_text_of_valid_bytes() {
    assert_eq!(payload_text(b"A*@bob*@hello"), "A*@bob*@hello");
    assert_eq!(payload_text("grüß*@dich".as_bytes()), "grüß*@dich");
    assert_eq!(payload_text(b""), "");
}

#[test]
fn payload_text_of_invalid_bytes_is_not_fatal() {
    let text = payload_text(&[b'A', b'*', b'@', 0xff, b'x']);
    assert_eq!(text, "A*@\u{fffd}x");
    let frame = decode_next(&text).unwrap();
    assert_eq!(frame.address, "A");
}

#[test]
fn payload_bytes_and_back() {
    let payload = encode_first("/ip4/10.0.0.7/tcp/4001", "zoë", "hello there");
    let bytes = payload_bytes(&payload);
    assert_eq!(bytes, payload.as_bytes().to_vec());
    assert_eq!(payload_text(&bytes), payload);
}
