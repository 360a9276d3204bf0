//! The decisions of the chat loop.
//!
//! The loop itself, which waits for the next typed line or the next event
//! of the transport, runs outside this library. It hands every event to
//! [`chat`] and carries out the reaction it gets back: publish a payload,
//! write the rows that were added, print a message, add or drop direct
//! peers, or shut down.

use crate::codec::{
    decode_first, decode_next, encode_first, encode_next, first_payload, has_separator, head,
    is_first_payload, is_next_payload, lemma_first_round_trip, lemma_next_round_trip,
    lemma_text_of_bytes, next_payload, payload_bytes, payload_text, sender_address, tail, text_of,
};
use crate::ident::{
    digest_matches, digest_text, every_second, hash_portion, identifier_text, is_identifier,
    lemma_digits_survive_hex, lemma_fresh_identifier_verifies, lemma_identifier_digits,
    lower_hex, message_id_bytes, sane_id, split_identifier, time_portion, TIMESTAMP_LIMIT,
};
use crate::registry::{registered, PeerRegistry};
use crate::store::{
    lemma_sender_for_known, lemma_with_message_wf, lemma_with_peer_wf, loopback_address,
    peer_index, put_message_parts, put_message_parts_with_id, put_peer_parts, sender_for,
    tables_wf, username_taken, with_message, with_peer, Store, StoreError, Tables,
    LOCAL_PEER_ID,
};
use crate::text::{digits_value, same_text};
use libp2p::gossipsub::MessageId;
use vstd::prelude::*;
use vstd::string::*;
use vstd::utf8::*;

verus! {

/// The line that ends the session.
pub open spec fn quit_line() -> Seq<char> {
    "q"@
}

/// What the chat loop carries from one event to the next.
pub struct ChatView {
    /// The username of the local user.
    pub username: Seq<char>,
    /// The best-known network address of the local node.
    pub address: Seq<char>,
    /// Whether the first message of the session has been sent.
    pub first_sent: bool,
    /// The known peers: username by address.
    pub known: Map<Seq<char>, Seq<char>>,
    /// The peer and message tables.
    pub tables: Tables,
}

/// Why an inbound message is dropped.
#[derive(Debug, Clone, Copy, PartialEq, Eq)]
pub enum ChatError {
    /// The payload is too long to be digested.
    PayloadTooLarge,
    /// The identifier is shorter than a time, or its time is not a number.
    BadIdentifier,
    /// The payload has fewer fields than its kind of message needs.
    MissingFields,
    /// The message table cannot take another row.
    StoreFull,
}

/// What became of a typed line that was sent.
#[derive(Debug, PartialEq, Eq)]
pub struct Outgoing {
    /// The bytes to publish.
    pub payload: Vec<u8>,
    /// The local address, where this was the first message and the address
    /// is to be shown to the user.
    pub announced: Option<String>,
    /// The id of the message row that was added for the line.
    pub stored: Result<u64, StoreError>,
}

/// An inbound message that was taken in.
#[derive(Debug, PartialEq, Eq)]
pub struct Delivery {
    /// The identifier of the message as text.
    pub id: String,
    /// The time that the identifier holds.
    pub time: u64,
    /// Whether the digest in the identifier is the digest of the payload.
    /// A message whose digest differs is delivered all the same.
    pub verified: bool,
    /// The address that the message names as its sender's.
    pub address: String,
    /// The username of the sender.
    pub sender: String,
    /// The text of the message.
    pub text: String,
    /// The id of the peer row that was added for the sender, if one was.
    pub new_peer: Option<u64>,
    /// The id of the message row that was added.
    pub message_id: u64,
}

/// What the loop is told about.
pub enum Event<P> {
    /// A line was typed at `now`, while the transport reported `external`
    /// as the first of its external addresses.
    Line { text: String, now: u64, external: Option<String> },
    /// The transport delivered a message.
    Message { id: MessageId, payload: Vec<u8> },
    /// Peers were discovered on the local network.
    Discovered { peers: Vec<P> },
    /// Discovered peers have expired.
    Expired { peers: Vec<P> },
    /// The local node listens on a new address.
    Listening { address: String },
}

/// What the loop is to do about an event.
pub enum Reaction<P> {
    /// Close the store and end the process, publishing nothing more.
    Quit,
    /// Publish the payload and write the message row.
    Sent(Outgoing),
    /// Show the message and write the rows that were added.
    Delivered(Delivery),
    /// Nothing was taken in.
    Dropped(ChatError),
    /// Make each of these a direct peer of the transport.
    AddDirectPeers(Vec<P>),
    /// Make none of these a direct peer of the transport any more.
    RemoveDirectPeers(Vec<P>),
    /// Show the address; nothing else changes.
    ShowListening(String),
}

/// An optional text as a mathematical value.
pub open spec fn text_view(text: Option<String>) -> Option<Seq<char>> {
    match text {
        Some(t) => Some(t@),
        None => None,
    }
}

/// The address to go by: the external one where the transport reports one,
/// and the loopback address otherwise.
pub open spec fn best_address(external: Option<Seq<char>>) -> Seq<char> {
    match external {
        Some(address) => address,
        None => loopback_address(),
    }
}

/// The rules that hold between events: the tables keep the rules of the
/// data model, and every known peer's username is in the peer table.
pub open spec fn chat_wf(v: ChatView) -> bool {
    &&& tables_wf(v.tables)
    &&& forall|address: Seq<char>|
        v.known.contains_key(address) ==> username_taken(
            v.tables.peers,
            #[trigger] v.known[address],
        )
}

/// The state at the start of a session.
pub open spec fn initial_chat(
    username: Seq<char>,
    external: Option<Seq<char>>,
    tables: Tables,
) -> ChatView {
    ChatView {
        username,
        address: best_address(external),
        first_sent: false,
        known: Map::empty(),
        tables,
    }
}

/// The address that the next outgoing message names: for the first
/// message the one known since the start, for every later one the best
/// address at the time of sending.
pub open spec fn outgoing_address(v: ChatView, external: Option<Seq<char>>) -> Seq<char> {
    if v.first_sent {
        best_address(external)
    } else {
        v.address
    }
}

/// The payload that carries `line`.
pub open spec fn outgoing_payload(
    v: ChatView,
    external: Option<Seq<char>>,
    line: Seq<char>,
) -> Seq<char> {
    if v.first_sent {
        next_payload(outgoing_address(v, external), line)
    } else {
        first_payload(outgoing_address(v, external), v.username, line)
    }
}

/// The state after `line` was sent at `now`: the first message is out, the
/// address is the one just used, and the line is filed as a message of the
/// local user, room permitting.
pub open spec fn after_line(
    v: ChatView,
    external: Option<Seq<char>>,
    line: Seq<char>,
    now: nat,
) -> ChatView {
    ChatView {
        username: v.username,
        address: outgoing_address(v, external),
        first_sent: true,
        known: v.known,
        tables: if v.tables.messages.len() < u64::MAX {
            with_message(v.tables, now, line, LOCAL_PEER_ID as nat)
        } else {
            v.tables
        },
    }
}

/// What an inbound message says, as far as it can be read.
pub struct Reading {
    /// The time that the identifier holds.
    pub time: nat,
    /// Whether the digest in the identifier is the digest of the payload.
    pub verified: bool,
    /// Whether the sender's address was unknown, so that the payload is
    /// read as a first message.
    pub first: bool,
    /// The sender's address.
    pub address: Seq<char>,
    /// The sender's username: announced in a first message, looked up for a later one.
    pub username: Seq<char>,
    /// The text of the message.
    pub text: Seq<char>,
}

/// Reads an inbound message. The fields come from the payload and the
/// known peers alone; the identifier gives only the time and the verdict
/// on the digest.
pub open spec fn reading(
    known: Map<Seq<char>, Seq<char>>,
    id: Seq<char>,
    payload: Seq<u8>,
) -> Reading {
    let text = text_of(payload);
    let address = head(text);
    let first = !known.contains_key(address);
    Reading {
        time: digits_value(time_portion(id)),
        verified: hash_portion(id) == digest_text(payload),
        first,
        address,
        username: if first {
            head(tail(text))
        } else {
            known[address]
        },
        text: if first {
            tail(tail(text))
        } else {
            tail(text)
        },
    }
}

/// Why an inbound message is dropped, or `None` where it is taken in.
pub open spec fn receive_error(v: ChatView, id: Seq<char>, payload: Seq<u8>) -> Option<
    ChatError,
> {
    let text = text_of(payload);
    if payload.len() * 8 > usize::MAX {
        Some(ChatError::PayloadTooLarge)
    } else if !is_identifier(id) {
        Some(ChatError::BadIdentifier)
    } else if v.known.contains_key(head(text)) && !is_next_payload(text) {
        Some(ChatError::MissingFields)
    } else if !v.known.contains_key(head(text)) && !is_first_payload(text) {
        Some(ChatError::MissingFields)
    } else if v.tables.messages.len() >= u64::MAX {
        Some(ChatError::StoreFull)
    } else {
        None
    }
}

/// The tables after an inbound message was taken in: the sender of a first
/// message is put into the peer table, and the message is filed under the
/// sender's username.
pub open spec fn tables_after_receive(tables: Tables, r: Reading) -> Tables {
    let peers_done = if r.first {
        with_peer(tables, r.address, r.username)
    } else {
        tables
    };
    with_message(peers_done, r.time, r.text, sender_for(peers_done.peers, r.username))
}

/// The state after an inbound message was taken in.
pub open spec fn after_receive(v: ChatView, id: Seq<char>, payload: Seq<u8>) -> ChatView {
    let r = reading(v.known, id, payload);
    ChatView {
        username: v.username,
        address: v.address,
        first_sent: v.first_sent,
        known: registered(v.known, r.address, r.username),
        tables: tables_after_receive(v.tables, r),
    }
}

/// Whether a delivery reports what was read and what was added.
pub open spec fn delivery_matches(d: Delivery, before: Tables, id: Seq<char>, r: Reading) -> bool {
    &&& d.id@ == id
    &&& d.time == r.time
    &&& d.verified == r.verified
    &&& d.address@ == r.address
    &&& d.sender@ == r.username
    &&& d.text@ == r.text
    &&& d.new_peer is Some <==> r.first && !username_taken(before.peers, r.username)
    &&& d.new_peer matches Some(peer) ==> peer == before.peers.len()
    &&& d.message_id == before.messages.len() + 1
}

/// The state of the chat loop: who the local user is, which address to
/// announce, whether the first message is out, who is known, and the store.
pub struct Chat {
    username: String,
    address: String,
    first_sent: bool,
    registry: PeerRegistry,
    store: Store,
}

impl View for Chat {
    type V = ChatView;

    closed spec fn view(&self) -> ChatView {
        ChatView {
            username: self.username@,
            address: self.address@,
            first_sent: self.first_sent,
            known: self.registry@,
            tables: self.store@,
        }
    }
}

/// Taking in a message keeps the rules that hold between events.
proof fn lemma_receive_keeps_wf(v: ChatView, id: Seq<char>, payload: Seq<u8>)
    requires
        chat_wf(v),
    ensures
        chat_wf(after_receive(v, id, payload)),
{
    let r = reading(v.known, id, payload);
    let after = after_receive(v, id, payload);
    let peers_done = if r.first {
        with_peer(v.tables, r.address, r.username)
    } else {
        v.tables
    };
    if r.first {
        lemma_with_peer_wf(v.tables, r.address, r.username);
    }
    lemma_sender_for_known(peers_done.peers, r.username);
    lemma_with_message_wf(peers_done, r.time, r.text, sender_for(peers_done.peers, r.username));
    assert forall|address: Seq<char>| after.known.contains_key(address) implies username_taken(
        after.tables.peers,
        #[trigger] after.known[address],
    ) by {
        let name = after.known[address];
        if v.known.contains_key(address) {
            assert(name == v.known[address]);
            let i = choose|i: int|
                0 <= i < v.tables.peers.len() && (#[trigger] v.tables.peers[i]).username == name;
            assert(peers_done.peers[i] == v.tables.peers[i]);
            assert(after.tables.peers[i].username == name);
        } else {
            assert(address == r.address && name == r.username);
            assert(username_taken(peers_done.peers, r.username));
        }
    }
}

/// A first message that was framed from an address and a username without
/// separator is read back field by field by a receiver to whom the address
/// is new.
pub proof fn lemma_first_message_is_read_back(
    known: Map<Seq<char>, Seq<char>>,
    id: Seq<char>,
    address: Seq<char>,
    username: Seq<char>,
    text: Seq<char>,
)
    requires
        !has_separator(address),
        !has_separator(username),
        !known.contains_key(address),
    ensures
        is_first_payload(text_of(encode_utf8(first_payload(address, username, text)))),
        reading(known, id, encode_utf8(first_payload(address, username, text))).first,
        reading(known, id, encode_utf8(first_payload(address, username, text))).address
            == address,
        reading(known, id, encode_utf8(first_payload(address, username, text))).username
            == username,
        reading(known, id, encode_utf8(first_payload(address, username, text))).text == text,
{
    lemma_text_of_bytes(first_payload(address, username, text));
    lemma_first_round_trip(address, username, text);
}

/// A later message that was framed from an address without separator is
/// read back by a receiver who knows the address: the text comes out as it
/// went in, whatever it holds, under the username that the address is bound to.
pub proof fn lemma_later_message_is_read_back(
    known: Map<Seq<char>, Seq<char>>,
    id: Seq<char>,
    address: Seq<char>,
    text: Seq<char>,
)
    requires
        !has_separator(address),
        known.contains_key(address),
    ensures
        is_next_payload(text_of(encode_utf8(next_payload(address, text)))),
        !reading(known, id, encode_utf8(next_payload(address, text))).first,
        reading(known, id, encode_utf8(next_payload(address, text))).address == address,
        reading(known, id, encode_utf8(next_payload(address, text))).username == known[address],
        reading(known, id, encode_utf8(next_payload(address, text))).text == text,
{
    lemma_text_of_bytes(next_payload(address, text));
    lemma_next_round_trip(address, text);
}

/// A payload that arrives as it was published, under the id that the
/// transport made of it at a time that fits in ten digits, passes the
/// check of its digest, and is given the time of its publication.
pub proof fn lemma_untampered_message_verifies(
    known: Map<Seq<char>, Seq<char>>,
    time: nat,
    payload: Seq<u8>,
)
    requires
        time < TIMESTAMP_LIMIT,
    ensures
        ({
            let id = every_second(lower_hex(encode_utf8(identifier_text(time, payload))));
            &&& id == identifier_text(time, payload)
            &&& is_identifier(id)
            &&& reading(known, id, payload).verified
            &&& reading(known, id, payload).time == time
        }),
{
    lemma_identifier_digits(time, payload);
    lemma_digits_survive_hex(identifier_text(time, payload));
    lemma_fresh_identifier_verifies(time, payload);
}

/// The digest in the identifier decides the verdict and nothing else: under
/// any two identifiers the same payload gives the same sender, username and
/// text, and the verdict is good exactly when the digest in the identifier
/// is the digest of the payload.
pub proof fn lemma_digest_mismatch_only_warns(
    known: Map<Seq<char>, Seq<char>>,
    id: Seq<char>,
    other: Seq<char>,
    payload: Seq<u8>,
)
    ensures
        reading(known, id, payload).verified <==> hash_portion(id) == digest_text(payload),
        reading(known, id, payload).first == reading(known, other, payload).first,
        reading(known, id, payload).address == reading(known, other, payload).address,
        reading(known, id, payload).username == reading(known, other, payload).username,
        reading(known, id, payload).text == reading(known, other, payload).text,
{
}

/// Whether a message is taken in does not depend on the digest in its
/// identifier, and neither does what it does to the known peers and the tables.
pub proof fn lemma_digest_mismatch_is_not_fatal(
    v: ChatView,
    id: Seq<char>,
    other: Seq<char>,
    payload: Seq<u8>,
)
    requires
        is_identifier(id),
        is_identifier(other),
        time_portion(id) == time_portion(other),
    ensures
        receive_error(v, id, payload) == receive_error(v, other, payload),
        after_receive(v, id, payload) == after_receive(v, other, payload),
{
}

/// A message that is taken in is filed under a row of the peer table that
/// carries the sender's username, never under the id for unknown senders,
/// with the text and the time that were read; and from then on the
/// sender's address resolves to that username.
pub proof fn lemma_delivered_message_has_its_sender(v: ChatView, id: Seq<char>, payload: Seq<u8>)
    requires
        chat_wf(v),
    ensures
        ({
            let r = reading(v.known, id, payload);
            let after = after_receive(v, id, payload);
            let filed = after.tables.messages.last();
            &&& after.tables.messages.len() == v.tables.messages.len() + 1
            &&& filed.time == r.time
            &&& filed.data == r.text
            &&& filed.sender < after.tables.peers.len()
            &&& after.tables.peers[filed.sender as int].username == r.username
            &&& after.known.contains_key(r.address)
            &&& after.known[r.address] == r.username
        }),
{
    let r = reading(v.known, id, payload);
    let peers_done = if r.first {
        with_peer(v.tables, r.address, r.username)
    } else {
        v.tables
    };
    if r.first {
        lemma_with_peer_wf(v.tables, r.address, r.username);
    } else {
        assert(username_taken(v.tables.peers, v.known[r.address]));
    }
    let i = peer_index(peers_done.peers, r.username);
    assert(peers_done.peers[i].id == i);
}

/// Sending a line keeps the rules that hold between events.
proof fn lemma_line_keeps_wf(v: ChatView, external: Option<Seq<char>>, line: Seq<char>, now: nat)
    requires
        chat_wf(v),
    ensures
        chat_wf(after_line(v, external, line, now)),
{
    let after = after_line(v, external, line, now);
    lemma_with_message_wf(v.tables, now, line, LOCAL_PEER_ID as nat);
    assert(after.tables.peers == v.tables.peers);
    assert forall|address: Seq<char>| after.known.contains_key(address) implies username_taken(
        after.tables.peers,
        #[trigger] after.known[address],
    ) by {
        assert(username_taken(v.tables.peers, v.known[address]));
    }
}

impl Chat {
    /// Whether the state keeps the rules that hold between events.
    pub open spec fn wf(&self) -> bool {
        chat_wf(self@)
    }

    /// The state at the start of a session: nothing sent, nobody known, and
    /// the address that the transport reports, or the loopback address.
    pub fn new(username: String, external: Option<String>, store: Store) -> (chat: Chat)
        requires
            store.wf(),
        ensures
            chat.wf(),
            chat@ == initial_chat(username@, text_view(external), store@),
    {
        let address: String = match external {
            Some(address) => address,
            None => String::from_str("/ip4/127.0.0.1/tcp/0"),
        };
        Chat { username, address, first_sent: false, registry: PeerRegistry::new(), store }
    }

    /// The username of the local user.
    pub fn username(&self) -> (username: &String)
        ensures
            username@ == self@.username,
    {
        &self.username
    }

    /// The best-known network address of the local node.
    pub fn address(&self) -> (address: &String)
        ensures
            address@ == self@.address,
    {
        &self.address
    }

    /// Whether the first message of the session has been sent.
    pub fn first_sent(&self) -> (sent: bool)
        ensures
            sent == self@.first_sent,
    {
        self.first_sent
    }

    /// The known peers.
    pub fn registry(&self) -> (registry: &PeerRegistry)
        ensures
            registry@ == self@.known,
    {
        &self.registry
    }

    /// The peer and message tables.
    pub fn store(&self) -> (store: &Store)
        ensures
            store@ == self@.tables,
            self.wf() ==> store.wf(),
    {
        &self.store
    }

    /// Ends the session and gives the store back, to be closed.
    pub fn into_store(self) -> (store: Store)
        ensures
            store@ == self@.tables,
            self.wf() ==> store.wf(),
    {
        self.store
    }

    /// Handles a typed line.
    ///
    /// The quit line changes nothing and asks for shutdown. Any other line
    /// is framed as the first or a later message, and filed in the message
    /// table as a message of the local user at `now`.
    pub fn handle_line(&mut self, line: String, now: u64, external: Option<String>) -> (outcome:
        Option<Outgoing>)
        requires
            old(self).wf(),
        ensures
            final(self).wf(),
            line_outcome(
                old(self)@,
                text_view(external),
                line@,
                now as nat,
                final(self)@,
                outcome,
            ),
    {
        if same_text(line.as_str(), "q") {
            return None;
        }
        let payload: String;
        let announced: Option<String>;
        if self.first_sent {
            self.address = match external {
                Some(address) => address,
                None => String::from_str("/ip4/127.0.0.1/tcp/0"),
            };
            payload = encode_next(self.address.as_str(), line.as_str());
            announced = None;
        } else {
            self.first_sent = true;
            payload = encode_first(self.address.as_str(), self.username.as_str(), line.as_str());
            announced = Some(self.address.clone());
        }
        let bytes: Vec<u8> = payload_bytes(payload.as_str());
        proof {
            lemma_line_keeps_wf(old(self)@, text_view(external), line@, now as nat);
        }
        let stored = put_message_parts_with_id(now, line, LOCAL_PEER_ID, &mut self.store);
        Some(Outgoing { payload: bytes, announced, stored })
    }

    /// Takes in a message that the transport delivered under `id`.
    pub fn handle_message(&mut self, id: MessageId, payload: &[u8]) -> (result: Result<
        Delivery,
        ChatError,
    >)
        requires
            old(self).wf(),
        ensures
            final(self).wf(),
            receive_outcome(
                old(self)@,
                every_second(lower_hex(message_id_bytes(id))),
                payload@,
                final(self)@,
                result,
            ),
    {
        let text: String = sane_id(id);
        self.receive(text.as_str(), payload)
    }

    /// Takes in a message, given its identifier as text.
    ///
    /// The message is dropped, and nothing changes, where the payload is
    /// too long to digest, where the identifier holds no time, where the
    /// payload has too few fields, and where the message table is full.
    /// Otherwise the sender of a first message becomes a known peer and a
    /// row of the peer table, and the message is filed under the sender's
    /// username. A digest that differs from the one in the identifier is
    /// reported and changes nothing else.
    pub fn receive(&mut self, id: &str, payload: &[u8]) -> (result: Result<Delivery, ChatError>)
        requires
            old(self).wf(),
        ensures
            final(self).wf(),
            receive_outcome(old(self)@, id@, payload@, final(self)@, result),
    {
        if payload.len() > usize::MAX / 8 {
            return Err(ChatError::PayloadTooLarge);
        }
        let (time, hash) = match split_identifier(id) {
            None => {
                return Err(ChatError::BadIdentifier);
            },
            Some(parts) => parts,
        };
        let verified: bool = digest_matches(payload, hash.as_str());
        let text: String = payload_text(payload);
        let address: String = sender_address(text.as_str());
        proof {
            lemma_receive_keeps_wf(self@, id@, payload@);
        }
        if self.registry.contains(address.as_str()) {
            let frame = match decode_next(text.as_str()) {
                None => {
                    return Err(ChatError::MissingFields);
                },
                Some(frame) => frame,
            };
            if !self.store.has_room() {
                return Err(ChatError::StoreFull);
            }
            let sender: String = match self.registry.resolve(address.as_str()) {
                Ok(name) => name,
                Err(_) => {
                    return Err(ChatError::MissingFields);
                },
            };
            let message_id: u64 = match put_message_parts(
                time,
                frame.text.clone(),
                sender.clone(),
                &mut self.store,
            ) {
                Ok(message_id) => message_id,
                Err(_) => {
                    return Err(ChatError::StoreFull);
                },
            };
            Ok(
                Delivery {
                    id: String::from_str(id),
                    time,
                    verified,
                    address,
                    sender,
                    text: frame.text,
                    new_peer: None,
                    message_id,
                },
            )
        } else {
            let frame = match decode_first(text.as_str()) {
                None => {
                    return Err(ChatError::MissingFields);
                },
                Some(frame) => frame,
            };
            if !self.store.has_room() {
                return Err(ChatError::StoreFull);
            }
            self.registry.register(frame.address.clone(), frame.username.clone());
            let new_peer: Option<u64> = put_peer_parts(
                frame.address.clone(),
                frame.username.clone(),
                &mut self.store,
            );
            let message_id: u64 = match put_message_parts(
                time,
                frame.text.clone(),
                frame.username.clone(),
                &mut self.store,
            ) {
                Ok(message_id) => message_id,
                Err(_) => {
                    return Err(ChatError::StoreFull);
                },
            };
            Ok(
                Delivery {
                    id: String::from_str(id),
                    time,
                    verified,
                    address,
                    sender: frame.username,
                    text: frame.text,
                    new_peer,
                    message_id,
                },
            )
        }
    }
}

/// What handling a typed line comes to: the quit line gives nothing to
/// send and changes nothing; any other line gives its payload as bytes, the
/// address to show where this was the first message, and the id of the
/// message row that was added, while the state moves on as `after_line` says.
pub open spec fn line_outcome(
    before: ChatView,
    external: Option<Seq<char>>,
    line: Seq<char>,
    now: nat,
    after: ChatView,
    outcome: Option<Outgoing>,
) -> bool {
    match outcome {
        None => line == quit_line() && after == before,
        Some(out) => {
            &&& line != quit_line()
            &&& after == after_line(before, external, line, now)
            &&& out.payload@ == encode_utf8(outgoing_payload(before, external, line))
            &&& text_view(out.announced) == (if before.first_sent {
                None
            } else {
                Some(before.address)
            })
            &&& out.stored is Ok <==> before.tables.messages.len() < u64::MAX
            &&& out.stored matches Ok(id) ==> id == before.tables.messages.len() + 1
            &&& out.stored matches Err(e) ==> e == StoreError::Full
        },
    }
}

/// What taking in a message comes to: either it is dropped for the reason
/// that `receive_error` gives and nothing changes, or it is taken in, the
/// state moves on as `after_receive` says, and the delivery reports what
/// was read.
pub open spec fn receive_outcome(
    before: ChatView,
    id: Seq<char>,
    payload: Seq<u8>,
    after: ChatView,
    result: Result<Delivery, ChatError>,
) -> bool {
    match result {
        Err(e) => receive_error(before, id, payload) == Some(e) && after == before,
        Ok(d) => {
            &&& receive_error(before, id, payload) is None
            &&& after == after_receive(before, id, payload)
            &&& delivery_matches(d, before.tables, id, reading(before.known, id, payload))
        },
    }
}

/// What the loop is to do about `event`, and what the event does to the state.
pub open spec fn chat_outcome<P>(
    before: ChatView,
    event: Event<P>,
    after: ChatView,
    reaction: Reaction<P>,
) -> bool {
    match event {
        Event::Line { text, now, external } => match reaction {
            Reaction::Quit => line_outcome(
                before,
                text_view(external),
                text@,
                now as nat,
                after,
                None,
            ),
            Reaction::Sent(out) => line_outcome(
                before,
                text_view(external),
                text@,
                now as nat,
                after,
                Some(out),
            ),
            _ => false,
        },
        Event::Message { id, payload } => match reaction {
            Reaction::Delivered(d) => receive_outcome(
                before,
                every_second(lower_hex(message_id_bytes(id))),
                payload@,
                after,
                Ok(d),
            ),
            Reaction::Dropped(e) => receive_outcome(
                before,
                every_second(lower_hex(message_id_bytes(id))),
                payload@,
                after,
                Err(e),
            ),
            _ => false,
        },
        Event::Discovered { peers } => reaction matches Reaction::AddDirectPeers(list) && list
            == peers && after == before,
        Event::Expired { peers } => reaction matches Reaction::RemoveDirectPeers(list) && list
            == peers && after == before,
        Event::Listening { address } => reaction matches Reaction::ShowListening(shown) && shown
            == address && after == before,
    }
}

/// One turn of the chat loop: takes the event that became ready, moves the
/// state on, and says what is to be done.
///
/// A typed line is sent and filed, unless it is the quit line, which asks
/// for shutdown. A delivered message is read, checked and filed, or
/// dropped. Discovered peers are to become direct peers of the transport,
/// expired ones are to be dropped as such, and a new listening address is
/// only shown; none of these three changes the state.
pub fn chat<P>(state: &mut Chat, event: Event<P>) -> (reaction: Reaction<P>)
    requires
        old(state).wf(),
    ensures
        final(state).wf(),
        chat_outcome(old(state)@, event, final(state)@, reaction),
{
    match event {
        Event::Line { text, now, external } => match state.handle_line(text, now, external) {
            None => Reaction::Quit,
            Some(out) => Reaction::Sent(out),
        },
        Event::Message { id, payload } => match state.handle_message(id, payload.as_slice()) {
            Ok(delivery) => Reaction::Delivered(delivery),
            Err(e) => Reaction::Dropped(e),
        },
        Event::Discovered { peers } => Reaction::AddDirectPeers(peers),
        Event::Expired { peers } => Reaction::RemoveDirectPeers(peers),
        Event::Listening { address } => Reaction::ShowListening(address),
    }
}

} // verus!
