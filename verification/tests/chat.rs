use libp2p::gossipsub::MessageId;
use p2p_chat::chat::{chat, Chat, ChatError, Delivery, Event, Outgoing, Reaction};
use p2p_chat::ident::message_id;
use p2p_chat::registry::RegistryError;
use p2p_chat::retry::{stop_db, CloseStep};
use p2p_chat::store::{init_db, Message, Peer, Store, StoreError};

const LOOPBACK: &str = "/ip4/127.0.0.1/tcp/0";

fn fresh_store(username: &str) -> Store {
    init_db(None, &username.to_string()).unwrap().0
}

fn session(username: &str) -> Chat {
    Chat::new(username.to_string(), None, fresh_store(username))
}

fn peer(id: u64, address: &str, username: &str) -> Peer {
    Peer { id, address: address.to_string(), username: username.to_string() }
}

fn message(id: u64, time: u64, data: &str, sender: u64) -> Message {
    Message { id, time, data: data.to_string(), sender }
}

#[test]
fn a_session_starts_with_nothing_sent_and_nobody_known() {
    let chat = session("alice");
    assert_eq!(chat.username(), "alice");
    assert_eq!(chat.address(), LOOPBACK);
    assert!(!chat.first_sent());
    assert!(!chat.registry().contains(LOOPBACK));
    assert_eq!(chat.store().peers().len(), 1);
}

#[test]
fn a_session_starts_at_the_external_address() {
    let chat =
        Chat::new("alice".to_string(), Some("/ip4/10.0.0.7/tcp/4001".to_string()), fresh_store("alice"));
    assert_eq!(chat.address(), "/ip4/10.0.0.7/tcp/4001");
}

#[test]
fn alice_sends_her_first_message() {
    let mut chat = session("alice");
    let out = chat.handle_line("hi".to_string(), 1_700_000_000, None).unwrap();
    assert_eq!(
        out,
        Outgoing {
            payload: b"/ip4/127.0.0.1/tcp/0*@alice*@hi".to_vec(),
            announced: Some(LOOPBACK.to_string()),
            stored: Ok(1),
        }
    );
    assert!(chat.first_sent());
    assert_eq!(chat.store().peers(), &vec![peer(0, LOOPBACK, "alice")]);
    assert_eq!(chat.store().messages(), &vec![message(1, 1_700_000_000, "hi", 0)]);
}

#[test]
fn later_messages_leave_the_username_out() {
    let mut chat = session("alice");
    chat.handle_line("hi".to_string(), 1, None).unwrap();
    let out = chat.handle_line("again".to_string(), 2, None).unwrap();
    assert_eq!(out.payload, b"/ip4/127.0.0.1/tcp/0*@again".to_vec());
    assert_eq!(out.announced, None);
    assert_eq!(out.stored, Ok(2));
    assert_eq!(chat.store().messages()[1], message(2, 2, "again", 0));
}

#[test]
fn later_messages_use_the_address_of_the_moment() {
    let mut chat = session("alice");
    chat.handle_line("hi".to_string(), 1, Some("/ip4/10.0.0.7/tcp/1".to_string())).unwrap();
    assert_eq!(chat.address(), LOOPBACK);
    let out = chat.handle_line("two".to_string(), 2, Some("/ip4/10.0.0.7/tcp/1".to_string())).unwrap();
    assert_eq!(out.payload, b"/ip4/10.0.0.7/tcp/1*@two".to_vec());
    assert_eq!(chat.address(), "/ip4/10.0.0.7/tcp/1");
    let out = chat.handle_line("three".to_string(), 3, None).unwrap();
    assert_eq!(out.payload, b"/ip4/127.0.0.1/tcp/0*@three".to_vec());
    assert_eq!(chat.address(), LOOPBACK);
}

#[test]
fn the_text_of_a_line_may_hold_the_separator() {
    let mut chat = session("alice");
    let out = chat.handle_line("a*@b".to_string(), 1, None).unwrap();
    assert_eq!(out.payload, b"/ip4/127.0.0.1/tcp/0*@alice*@a*@b".to_vec());
    assert_eq!(chat.store().messages()[0].data, "a*@b");
}

#[test]
fn the_quit_line_changes_nothing() {
    let mut chat = session("alice");
    assert_eq!(chat.handle_line("q".to_string(), 5, None), None);
    assert!(!chat.first_sent());
    assert!(chat.store().messages().is_empty());
    chat.handle_line("hi".to_string(), 6, None).unwrap();
    assert_eq!(chat.handle_line("q".to_string(), 7, Some("X".to_string())), None);
    assert_eq!(chat.address(), LOOPBACK);
    assert_eq!(chat.store().messages().len(), 1);
}

#[test]
fn lines_that_only_look_like_the_quit_line_are_sent() {
    let mut chat = session("alice");
    assert!(chat.handle_line("Q".to_string(), 1, None).is_some());
    assert!(chat.handle_line("q ".to_string(), 2, None).is_some());
    assert!(chat.handle_line("".to_string(), 3, None).is_some());
    assert_eq!(chat.store().messages().len(), 3);
}

#[test]
fn quitting_closes_the_store_once_it_is_idle() {
    let mut state = session("alice");
    match chat::<u8>(&mut state, Event::Line { text: "q".to_string(), now: 9, external: None }) {
        Reaction::Quit => {}
        _ => panic!("the quit line did not ask for shutdown"),
    }
    assert!(state.store().messages().is_empty());
    let store = state.into_store();
    assert_eq!(stop_db(true), CloseStep::Wait { delay_ms: 1000 });
    assert_eq!(stop_db(false), CloseStep::Finalize);
    assert_eq!(store.peers().len(), 1);
}

#[test]
fn an_unseen_peer_sends_its_first_message() {
    let mut chat = session("alice");
    let id = message_id(1_700_000_123, b"A*@bob*@hello");
    let delivery = chat.handle_message(id, b"A*@bob*@hello").unwrap();
    assert_eq!(
        delivery,
        Delivery {
            id: "17000001231911912521712071491152521805054195170106776".to_string(),
            time: 1_700_000_123,
            verified: true,
            address: "A".to_string(),
            sender: "bob".to_string(),
            text: "hello".to_string(),
            new_peer: Some(1),
            message_id: 1,
        }
    );
    assert_eq!(chat.registry().resolve("A"), Ok("bob".to_string()));
    assert_eq!(chat.store().peers(), &vec![peer(0, LOOPBACK, "alice"), peer(1, "A", "bob")]);
    assert_eq!(chat.store().messages(), &vec![message(1, 1_700_000_123, "hello", 1)]);
}

#[test]
fn a_seen_peer_sends_a_later_message() {
    let mut chat = session("alice");
    chat.handle_message(message_id(1_700_000_123, b"A*@bob*@hello"), b"A*@bob*@hello").unwrap();
    let delivery = chat
        .handle_message(message_id(1_700_000_124, b"A*@how are you"), b"A*@how are you")
        .unwrap();
    assert_eq!(delivery.sender, "bob");
    assert_eq!(delivery.text, "how are you");
    assert_eq!(delivery.address, "A");
    assert_eq!(delivery.time, 1_700_000_124);
    assert_eq!(delivery.new_peer, None);
    assert_eq!(delivery.message_id, 2);
    assert!(delivery.verified);
    assert_eq!(chat.store().peers().len(), 2);
    assert_eq!(chat.store().messages()[1], message(2, 1_700_000_124, "how are you", 1));
}

#[test]
fn a_later_message_keeps_its_separators() {
    let mut chat = session("alice");
    chat.receive("1700000000", b"A*@bob*@hello").unwrap();
    let delivery = chat.receive("1700000001", b"A*@x*@y*@z").unwrap();
    assert_eq!(delivery.text, "x*@y*@z");
    assert_eq!(chat.store().messages()[1].data, "x*@y*@z");
}

#[test]
fn a_wrong_digest_is_reported_and_nothing_else_changes() {
    let mut witness = session("alice");
    let good = witness.handle_message(message_id(1_700_000_123, b"A*@bob*@hello"), b"A*@bob*@hello").unwrap();

    let mut chat = session("alice");
    let id = message_id(1_700_000_123, b"A*@bob*@hellO");
    let delivery = chat.handle_message(id, b"A*@bob*@hello").unwrap();
    assert!(!delivery.verified);
    assert!(good.verified);
    assert_eq!(delivery.address, good.address);
    assert_eq!(delivery.sender, good.sender);
    assert_eq!(delivery.text, good.text);
    assert_eq!(delivery.time, good.time);
    assert_eq!(delivery.new_peer, good.new_peer);
    assert_eq!(delivery.message_id, good.message_id);
    assert_eq!(chat.store().peers(), witness.store().peers());
    assert_eq!(chat.store().messages(), witness.store().messages());
    assert_eq!(chat.registry().resolve("A"), Ok("bob".to_string()));
}

#[test]
fn an_identifier_without_a_digest_does_not_verify() {
    let mut chat = session("alice");
    let delivery = chat.receive("1700000000", b"A*@bob*@hello").unwrap();
    assert!(!delivery.verified);
    assert_eq!(delivery.time, 1_700_000_000);
    assert_eq!(delivery.id, "1700000000");
}

#[test]
fn a_known_username_at_a_new_address_adds_no_peer_row() {
    let mut chat = session("alice");
    chat.receive("1700000000", b"A*@bob*@hello").unwrap();
    let delivery = chat.receive("1700000001", b"B*@bob*@moved").unwrap();
    assert_eq!(delivery.new_peer, None);
    assert_eq!(delivery.sender, "bob");
    assert_eq!(chat.store().peers().len(), 2);
    assert_eq!(chat.store().messages()[1], message(2, 1_700_000_001, "moved", 1));
    assert_eq!(chat.registry().resolve("B"), Ok("bob".to_string()));
}

#[test]
fn a_second_first_message_from_a_known_address_is_read_as_a_later_one() {
    let mut chat = session("alice");
    chat.receive("1700000000", b"A*@bob*@hello").unwrap();
    let delivery = chat.receive("1700000001", b"A*@mallory*@hi").unwrap();
    assert_eq!(delivery.sender, "bob");
    assert_eq!(delivery.text, "mallory*@hi");
    assert_eq!(chat.registry().resolve("A"), Ok("bob".to_string()));
    assert_eq!(chat.store().peers().len(), 2);
}

#[test]
fn bytes_that_are_no_text_are_not_fatal() {
    let mut chat = session("alice");
    let payload = [b'A', b'*', b'@', b'b', 0xff, b'b', b'*', b'@', 0xc3, 0x28];
    let delivery = chat.handle_message(message_id(1_700_000_000, &payload), &payload).unwrap();
    assert_eq!(delivery.address, "A");
    assert_eq!(delivery.sender, "b\u{fffd}b");
    assert_eq!(delivery.text, "\u{fffd}(");
    assert!(delivery.verified);
}

#[test]
fn a_message_with_too_few_fields_is_dropped() {
    let mut chat = session("alice");
    assert_eq!(chat.receive("1700000000", b"A*@hello"), Err(ChatError::MissingFields));
    assert_eq!(chat.receive("1700000000", b"hello"), Err(ChatError::MissingFields));
    assert_eq!(chat.receive("1700000000", b""), Err(ChatError::MissingFields));
    assert!(!chat.registry().contains("A"));
    assert_eq!(chat.registry().resolve("A"), Err(RegistryError::SenderUnknown));
    assert_eq!(chat.store().peers().len(), 1);
    assert!(chat.store().messages().is_empty());

    chat.receive("1700000000", b"A*@bob*@hello").unwrap();
    assert_eq!(chat.receive("1700000001", b"A"), Err(ChatError::MissingFields));
    assert_eq!(chat.store().messages().len(), 1);
}

#[test]
fn a_message_under_a_bad_identifier_is_dropped() {
    let mut chat = session("alice");
    assert_eq!(chat.receive("170000000", b"A*@bob*@hello"), Err(ChatError::BadIdentifier));
    assert_eq!(chat.receive("17000000ab123", b"A*@bob*@hello"), Err(ChatError::BadIdentifier));
    assert_eq!(chat.receive("", b"A*@bob*@hello"), Err(ChatError::BadIdentifier));
    assert_eq!(
        chat.handle_message(MessageId::new(&[0xab, 0xcd]), b"A*@bob*@hello"),
        Err(ChatError::BadIdentifier)
    );
    assert!(!chat.registry().contains("A"));
    assert!(chat.store().messages().is_empty());
}

#[test]
fn the_identifier_is_checked_before_the_fields() {
    let mut chat = session("alice");
    assert_eq!(chat.receive("short", b"no fields"), Err(ChatError::BadIdentifier));
}

#[test]
fn the_loop_sends_lines() {
    let mut state = session("alice");
    let reaction =
        chat::<u8>(&mut state, Event::Line { text: "hi".to_string(), now: 3, external: None });
    match reaction {
        Reaction::Sent(out) => {
            assert_eq!(out.payload, b"/ip4/127.0.0.1/tcp/0*@alice*@hi".to_vec());
            assert_eq!(out.stored, Ok::<u64, StoreError>(1));
        }
        _ => panic!("a line was not sent"),
    }
}

#[test]
fn the_loop_takes_in_messages() {
    let mut state = session("alice");
    let id = message_id(1_700_000_000, b"A*@bob*@hello");
    match chat::<u8>(&mut state, Event::Message { id, payload: b"A*@bob*@hello".to_vec() }) {
        Reaction::Delivered(delivery) => {
            assert_eq!(delivery.sender, "bob");
            assert_eq!(delivery.text, "hello");
            assert!(delivery.verified);
        }
        _ => panic!("a message was not delivered"),
    }
    let id = MessageId::from("x");
    match chat::<u8>(&mut state, Event::Message { id, payload: b"A*@again".to_vec() }) {
        Reaction::Dropped(e) => assert_eq!(e, ChatError::BadIdentifier),
        _ => panic!("a message under a bad identifier was not dropped"),
    }
    assert_eq!(state.store().messages().len(), 1);
}

#[test]
fn the_loop_passes_discovery_on() {
    let mut state = session("alice");
    match chat(&mut state, Event::Discovered { peers: vec!["p1", "p2"] }) {
        Reaction::AddDirectPeers(peers) => assert_eq!(peers, vec!["p1", "p2"]),
        _ => panic!("discovered peers were not added"),
    }
    match chat(&mut state, Event::Expired { peers: vec!["p2"] }) {
        Reaction::RemoveDirectPeers(peers) => assert_eq!(peers, vec!["p2"]),
        _ => panic!("expired peers were not removed"),
    }
    match chat::<u8>(&mut state, Event::Listening { address: "/ip4/0.0.0.0/tcp/9".to_string() }) {
        Reaction::ShowListening(address) => assert_eq!(address, "/ip4/0.0.0.0/tcp/9"),
        _ => panic!("a listening address was not shown"),
    }
    assert!(!state.first_sent());
    assert_eq!(state.address(), LOOPBACK);
    assert_eq!(state.store().peers().len(), 1);
}

#[test]
fn a_restored_store_is_carried_on() {
    let mut first = session("alice");
    first.handle_line("hi".to_string(), 1, None).unwrap();
    first.receive("1700000000", b"A*@bob*@hello").unwrap();
    let store = first.into_store();
    let saved = p2p_chat::store::SavedTables {
        peers: store.peers().clone(),
        messages: store.messages().clone(),
    };
    let (store, existed) = init_db(Some(saved), &"alice".to_string()).unwrap();
    assert!(existed);
    let mut second = Chat::new("alice".to_string(), None, store);
    let delivery = second.receive("1700000005", b"B*@bob*@back").unwrap();
    assert_eq!(delivery.new_peer, None);
    assert_eq!(delivery.message_id, 3);
    assert_eq!(second.store().messages()[2], message(3, 1_700_000_005, "back", 1));
}
