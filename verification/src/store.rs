//! The peer and message tables of one chat room.
//!
//! `Store` holds the two tables as values and decides what each operation
//! does to them: which id a new row gets, when an insert is ignored, which
//! sender a message is filed under, which rows count as recent. Writing the
//! rows to disk is left to the caller, who gets the id of every row that was
//! added.

use vstd::prelude::*;
use vstd::string::*;

verus! {

/// The peer id of the local user.
pub const LOCAL_PEER_ID: u64 = 0;

/// The sender id that a message gets when its sender's username is not in the peer table.
pub const UNKNOWN_SENDER: u64 = 100;

/// How many messages count as recent.
pub const RECENT_LIMIT: usize = 50;

/// The address that stands for the local user in the peer table.
pub open spec fn loopback_address() -> Seq<char> {
    "/ip4/127.0.0.1/tcp/0"@
}

/// A row of the peer table.
#[derive(Debug, Clone, PartialEq, Eq)]
pub struct Peer {
    pub id: u64,
    pub address: String,
    pub username: String,
}

/// A row of the message table.
#[derive(Debug, Clone, PartialEq, Eq)]
pub struct Message {
    pub id: u64,
    pub time: u64,
    pub data: String,
    pub sender: u64,
}

/// A message as it is shown: with the username of its sender, where the
/// sender is in the peer table.
#[derive(Debug, PartialEq, Eq)]
pub struct HistoryEntry {
    pub id: u64,
    pub time: u64,
    pub data: String,
    pub username: Option<String>,
}

/// The two tables as they were read from disk.
#[derive(Debug, Clone, PartialEq, Eq)]
pub struct SavedTables {
    pub peers: Vec<Peer>,
    pub messages: Vec<Message>,
}

/// Why a store operation fails.
#[derive(Debug, Clone, Copy, PartialEq, Eq)]
pub enum StoreError {
    /// The saved tables break a rule of the data model.
    Corrupt,
    /// The message table cannot take another row.
    Full,
    /// The sender id is neither in the peer table nor the id for unknown senders.
    UnknownSender,
}

/// A peer row as a mathematical value.
pub struct PeerView {
    pub id: nat,
    pub address: Seq<char>,
    pub username: Seq<char>,
}

/// A message row as a mathematical value.
pub struct MessageView {
    pub id: nat,
    pub time: nat,
    pub data: Seq<char>,
    pub sender: nat,
}

/// A shown message as a mathematical value.
pub struct HistoryView {
    pub id: nat,
    pub time: nat,
    pub data: Seq<char>,
    pub username: Option<Seq<char>>,
}

/// Both tables as a mathematical value, rows in the order of insertion.
pub struct Tables {
    pub peers: Seq<PeerView>,
    pub messages: Seq<MessageView>,
}

impl View for Peer {
    type V = PeerView;

    open spec fn view(&self) -> PeerView {
        PeerView { id: self.id as nat, address: self.address@, username: self.username@ }
    }
}

impl View for Message {
    type V = MessageView;

    open spec fn view(&self) -> MessageView {
        MessageView {
            id: self.id as nat,
            time: self.time as nat,
            data: self.data@,
            sender: self.sender as nat,
        }
    }
}

impl View for HistoryEntry {
    type V = HistoryView;

    open spec fn view(&self) -> HistoryView {
        HistoryView {
            id: self.id as nat,
            time: self.time as nat,
            data: self.data@,
            username: match self.username {
                Some(name) => Some(name@),
                None => None,
            },
        }
    }
}

/// The rows of a peer table held in a vector.
pub open spec fn peer_views(peers: Seq<Peer>) -> Seq<PeerView> {
    Seq::new(peers.len(), |i: int| peers[i]@)
}

/// The rows of a message table held in a vector.
pub open spec fn message_views(messages: Seq<Message>) -> Seq<MessageView> {
    Seq::new(messages.len(), |i: int| messages[i]@)
}

/// The shown messages held in a vector.
pub open spec fn history_views(entries: Seq<HistoryEntry>) -> Seq<HistoryView> {
    Seq::new(entries.len(), |i: int| entries[i]@)
}

impl View for SavedTables {
    type V = Tables;

    open spec fn view(&self) -> Tables {
        Tables { peers: peer_views(self.peers@), messages: message_views(self.messages@) }
    }
}

/// Whether some peer row has `username`.
pub open spec fn username_taken(peers: Seq<PeerView>, username: Seq<char>) -> bool {
    exists|i: int| 0 <= i < peers.len() && (#[trigger] peers[i]).username == username
}

/// The index of a peer row that has `username`. Only meaningful where there is one.
pub open spec fn peer_index(peers: Seq<PeerView>, username: Seq<char>) -> int {
    choose|i: int| 0 <= i < peers.len() && (#[trigger] peers[i]).username == username
}

/// The sender id under which a message of `username` is filed: the id of
/// the peer with that username, or `UNKNOWN_SENDER` where there is none.
pub open spec fn sender_for(peers: Seq<PeerView>, username: Seq<char>) -> nat {
    if username_taken(peers, username) {
        peers[peer_index(peers, username)].id
    } else {
        UNKNOWN_SENDER as nat
    }
}

/// Whether a message may name `sender`: it is a peer id of the table, or
/// the id for unknown senders.
pub open spec fn sender_known(peers: Seq<PeerView>, sender: nat) -> bool {
    sender < peers.len() || sender == UNKNOWN_SENDER
}

/// The rules of the peer table: the local user is there, ids count up from
/// zero in the order of insertion, and no username occurs twice.
pub open spec fn peers_wf(peers: Seq<PeerView>) -> bool {
    &&& peers.len() >= 1
    &&& forall|i: int| 0 <= i < peers.len() ==> (#[trigger] peers[i]).id == i
    &&& forall|i: int, j: int|
        0 <= i < j < peers.len() ==> (#[trigger] peers[i]).username != (
        #[trigger] peers[j]).username
}

/// The rules of the message table: ids count up from one in the order of
/// insertion, and every sender is known.
pub open spec fn messages_wf(peers: Seq<PeerView>, messages: Seq<MessageView>) -> bool {
    &&& forall|k: int| 0 <= k < messages.len() ==> (#[trigger] messages[k]).id == k + 1
    &&& forall|k: int|
        0 <= k < messages.len() ==> sender_known(peers, (#[trigger] messages[k]).sender)
}

/// The rules of the data model.
pub open spec fn tables_wf(tables: Tables) -> bool {
    peers_wf(tables.peers) && messages_wf(tables.peers, tables.messages)
}

/// The tables of a store that was just created for the local user `username`.
pub open spec fn fresh_tables(username: Seq<char>) -> Tables {
    Tables {
        peers: seq![PeerView { id: LOCAL_PEER_ID as nat, address: loopback_address(), username }],
        messages: Seq::empty(),
    }
}

/// The tables after a peer was put in: unchanged where the username is
/// taken, and with a new last row otherwise.
pub open spec fn with_peer(tables: Tables, address: Seq<char>, username: Seq<char>) -> Tables {
    if username_taken(tables.peers, username) {
        tables
    } else {
        Tables {
            peers: tables.peers.push(PeerView { id: tables.peers.len(), address, username }),
            messages: tables.messages,
        }
    }
}

/// The tables after a message was appended.
pub open spec fn with_message(tables: Tables, time: nat, data: Seq<char>, sender: nat) -> Tables {
    Tables {
        peers: tables.peers,
        messages: tables.messages.push(
            MessageView { id: tables.messages.len() + 1, time, data, sender },
        ),
    }
}

/// The index of the first recent message among `count` messages.
pub open spec fn recent_start(count: nat) -> nat {
    if count <= RECENT_LIMIT {
        0
    } else {
        (count - RECENT_LIMIT) as nat
    }
}

/// The username of the peer with id `sender`, where there is one.
pub open spec fn sender_name(peers: Seq<PeerView>, sender: nat) -> Option<Seq<char>> {
    if sender < peers.len() {
        Some(peers[sender as int].username)
    } else {
        None
    }
}

/// The message at index `k` as it is shown.
pub open spec fn history_entry(tables: Tables, k: int) -> HistoryView {
    HistoryView {
        id: tables.messages[k].id,
        time: tables.messages[k].time,
        data: tables.messages[k].data,
        username: sender_name(tables.peers, tables.messages[k].sender),
    }
}

/// The recent messages: all of them where there are at most `RECENT_LIMIT`,
/// and the last `RECENT_LIMIT` otherwise, in the order of insertion.
pub open spec fn recent(tables: Tables) -> Seq<HistoryView> {
    let start = recent_start(tables.messages.len());
    Seq::new(
        (tables.messages.len() - start) as nat,
        |k: int| history_entry(tables, start + k),
    )
}

/// In a table that keeps the rules, a username belongs to one row only, and
/// a message of that username is filed under that row's id.
pub proof fn lemma_sender_for_row(peers: Seq<PeerView>, i: int)
    requires
        peers_wf(peers),
        0 <= i < peers.len(),
    ensures
        username_taken(peers, peers[i].username),
        peer_index(peers, peers[i].username) == i,
        sender_for(peers, peers[i].username) == i,
{
    let j = peer_index(peers, peers[i].username);
    assert(peers[j].username == peers[i].username);
    if j < i {
        assert(peers[j].username != peers[i].username);
    } else if i < j {
        assert(peers[i].username != peers[j].username);
    }
}

/// Putting a peer in keeps the rules of the data model.
pub proof fn lemma_with_peer_wf(tables: Tables, address: Seq<char>, username: Seq<char>)
    requires
        tables_wf(tables),
    ensures
        tables_wf(with_peer(tables, address, username)),
        username_taken(with_peer(tables, address, username).peers, username),
{
    let after = with_peer(tables, address, username);
    if !username_taken(tables.peers, username) {
        let n = tables.peers.len() as int;
        assert(after.peers[n].username == username);
        assert forall|i: int, j: int| 0 <= i < j < after.peers.len() implies (
        #[trigger] after.peers[i]).username != (#[trigger] after.peers[j]).username by {
            if j == n {
                assert(after.peers[i] == tables.peers[i]);
            } else {
                assert(after.peers[i] == tables.peers[i]);
                assert(after.peers[j] == tables.peers[j]);
            }
        }
        assert forall|k: int| 0 <= k < after.messages.len() implies sender_known(
            after.peers,
            (#[trigger] after.messages[k]).sender,
        ) by {
            assert(sender_known(tables.peers, tables.messages[k].sender));
        }
    }
}

/// Appending a message with a known sender keeps the rules of the data model.
pub proof fn lemma_with_message_wf(tables: Tables, time: nat, data: Seq<char>, sender: nat)
    requires
        tables_wf(tables),
        sender_known(tables.peers, sender),
    ensures
        tables_wf(with_message(tables, time, data, sender)),
{
    let after = with_message(tables, time, data, sender);
    assert forall|k: int| 0 <= k < after.messages.len() implies (#[trigger] after.messages[k]).id
        == k + 1 && sender_known(after.peers, after.messages[k].sender) by {
        if k < tables.messages.len() {
            assert(after.messages[k] == tables.messages[k]);
        }
    }
}

/// The sender under which a username is filed is always known.
pub proof fn lemma_sender_for_known(peers: Seq<PeerView>, username: Seq<char>)
    requires
        peers_wf(peers),
    ensures
        sender_known(peers, sender_for(peers, username)),
{
    if username_taken(peers, username) {
        let i = peer_index(peers, username);
        assert(peers[i].id == i);
    }
}

/// No operation changes or removes a row: the rows that were there before
/// a peer is put in or a message is appended are there afterwards, in the
/// same places.
pub proof fn lemma_rows_stay(
    tables: Tables,
    address: Seq<char>,
    username: Seq<char>,
    time: nat,
    data: Seq<char>,
    sender: nat,
)
    ensures
        tables.peers.is_prefix_of(with_peer(tables, address, username).peers),
        with_peer(tables, address, username).messages == tables.messages,
        tables.messages.is_prefix_of(with_message(tables, time, data, sender).messages),
        with_message(tables, time, data, sender).peers == tables.peers,
{
}

/// Putting in a peer whose username is taken changes nothing, and the
/// table still has exactly one row with that username.
pub proof fn lemma_taken_username_is_ignored(
    tables: Tables,
    address: Seq<char>,
    username: Seq<char>,
)
    requires
        tables_wf(tables),
        username_taken(tables.peers, username),
    ensures
        with_peer(tables, address, username) == tables,
        forall|i: int, j: int|
            0 <= i < tables.peers.len() && 0 <= j < tables.peers.len() && (
            #[trigger] tables.peers[i]).username == username && (
            #[trigger] tables.peers[j]).username == username ==> i == j,
{
    assert forall|i: int, j: int|
        0 <= i < tables.peers.len() && 0 <= j < tables.peers.len() && (
        #[trigger] tables.peers[i]).username == username && (
        #[trigger] tables.peers[j]).username == username implies i == j by {
        if i < j {
            assert(tables.peers[i].username != tables.peers[j].username);
        } else if j < i {
            assert(tables.peers[j].username != tables.peers[i].username);
        }
    }
}

/// Two peers put in under different usernames are filed under different
/// ids, and the local user stays the first row, with id zero.
pub proof fn lemma_distinct_usernames_distinct_ids(
    tables: Tables,
    first_address: Seq<char>,
    first_username: Seq<char>,
    second_address: Seq<char>,
    second_username: Seq<char>,
)
    requires
        tables_wf(tables),
        first_username != second_username,
    ensures
        ({
            let after = with_peer(
                with_peer(tables, first_address, first_username),
                second_address,
                second_username,
            );
            &&& tables_wf(after)
            &&& username_taken(after.peers, first_username)
            &&& username_taken(after.peers, second_username)
            &&& sender_for(after.peers, first_username) != sender_for(
                after.peers,
                second_username,
            )
            &&& after.peers[0] == tables.peers[0]
            &&& after.peers[0].id == LOCAL_PEER_ID as nat
        }),
{
    let middle = with_peer(tables, first_address, first_username);
    let after = with_peer(middle, second_address, second_username);
    lemma_with_peer_wf(tables, first_address, first_username);
    lemma_with_peer_wf(middle, second_address, second_username);
    let i = peer_index(middle.peers, first_username);
    assert(after.peers[i] == middle.peers[i]);
    assert(username_taken(after.peers, first_username));
    let a = peer_index(after.peers, first_username);
    let b = peer_index(after.peers, second_username);
    assert(after.peers[a].username != after.peers[b].username);
    assert(after.peers[a].id == a);
    assert(after.peers[b].id == b);
    assert(middle.peers[0] == tables.peers[0]);
    assert(after.peers[0] == middle.peers[0]);
}

/// The recent messages of tables that keep the rules: as many as there are
/// messages, but at most `RECENT_LIMIT`; the last of them is the last
/// message; and their ids go up by one from each to the next.
pub proof fn lemma_recent_window(tables: Tables)
    requires
        tables_wf(tables),
    ensures
        recent(tables).len() == if tables.messages.len() <= RECENT_LIMIT {
            tables.messages.len()
        } else {
            RECENT_LIMIT as nat
        },
        forall|k: int|
            0 <= k < recent(tables).len() ==> (#[trigger] recent(tables)[k]).id
                == tables.messages.len() - recent(tables).len() + k + 1,
        forall|k: int|
            0 <= k < recent(tables).len() ==> (#[trigger] recent(tables)[k]) == history_entry(
                tables,
                tables.messages.len() - recent(tables).len() + k,
            ),
{
    let start = recent_start(tables.messages.len()) as int;
    assert forall|k: int| 0 <= k < recent(tables).len() implies (#[trigger] recent(tables)[k]).id
        == tables.messages.len() - recent(tables).len() + k + 1 by {
        assert(tables.messages[start + k].id == start + k + 1);
    }
}

/// The peer and message tables of one chat room.
pub struct Store {
    peers: Vec<Peer>,
    messages: Vec<Message>,
}

impl View for Store {
    type V = Tables;

    closed spec fn view(&self) -> Tables {
        Tables { peers: peer_views(self.peers@), messages: message_views(self.messages@) }
    }
}

impl Store {
    /// Whether the tables keep the rules of the data model. Every store that
    /// this module hands out does, and every operation keeps it so.
    pub open spec fn wf(&self) -> bool {
        tables_wf(self@)
    }

    /// The rows of the peer table, in the order of insertion.
    pub fn peers(&self) -> (rows: &Vec<Peer>)
        ensures
            peer_views(rows@) == self@.peers,
    {
        &self.peers
    }

    /// The rows of the message table, in the order of insertion.
    pub fn messages(&self) -> (rows: &Vec<Message>)
        ensures
            message_views(rows@) == self@.messages,
    {
        &self.messages
    }

    /// Whether the message table can take another row.
    pub fn has_room(&self) -> (room: bool)
        ensures
            room == (self@.messages.len() < u64::MAX),
    {
        (self.messages.len() as u64) < u64::MAX
    }

    /// The sender id under which a message of `username` is filed.
    pub fn sender_id(&self, username: &String) -> (sender: u64)
        requires
            self.wf(),
        ensures
            sender as nat == sender_for(self@.peers, username@),
            username_taken(self@.peers, username@) ==> sender < self@.peers.len(),
    {
        match find_username(&self.peers, username) {
            Some(i) => {
                proof {
                    lemma_sender_for_row(self@.peers, i as int);
                }
                self.peers[i].id
            },
            None => UNKNOWN_SENDER,
        }
    }
}

/// The name of the file that holds the tables of the chat room `access`.
pub fn database_file(access: &str) -> (name: String)
    ensures
        name@ == access@ + ".dat"@,
{
    let mut name: String = String::from_str(access);
    name.append(".dat");
    name
}

/// Looks for a peer row with `username`.
fn find_username(peers: &Vec<Peer>, username: &String) -> (found: Option<usize>)
    ensures
        found is Some <==> username_taken(peer_views(peers@), username@),
        found matches Some(i) ==> i < peers@.len() && peers@[i as int].username@ == username@,
{
    let ghost rows = peer_views(peers@);
    let mut i: usize = 0;
    while i < peers.len()
        invariant
            i <= peers@.len(),
            rows == peer_views(peers@),
            forall|a: int| 0 <= a < i ==> (#[trigger] rows[a]).username != username@,
        decreases peers@.len() - i,
    {
        if peers[i].username == *username {
            assert(rows[i as int].username == username@);
            return Some(i);
        }
        i = i + 1;
    }
    None
}

/// Whether the rows of a peer table keep its rules.
fn check_peers(peers: &Vec<Peer>) -> (ok: bool)
    ensures
        ok == peers_wf(peer_views(peers@)),
{
    let ghost rows = peer_views(peers@);
    let n: usize = peers.len();
    if n == 0 {
        return false;
    }
    let mut i: usize = 0;
    while i < n
        invariant
            i <= n == peers@.len(),
            rows == peer_views(peers@),
            forall|a: int| 0 <= a < i ==> (#[trigger] rows[a]).id == a,
            forall|a: int, b: int|
                0 <= a < b < i ==> (#[trigger] rows[a]).username != (#[trigger] rows[b]).username,
        decreases n - i,
    {
        if peers[i].id != i as u64 {
            assert(rows[i as int].id != i);
            return false;
        }
        let mut j: usize = 0;
        while j < i
            invariant
                j <= i < n == peers@.len(),
                rows == peer_views(peers@),
                forall|a: int| 0 <= a < j ==> (#[trigger] rows[a]).username != rows[i as int].username,
            decreases i - j,
        {
            if peers[j].username == peers[i].username {
                assert(rows[j as int].username == rows[i as int].username);
                return false;
            }
            j = j + 1;
        }
        i = i + 1;
    }
    true
}

/// Whether the rows of a message table keep its rules, beside a peer table of `peer_count` rows.
fn check_messages(peers: &Vec<Peer>, messages: &Vec<Message>) -> (ok: bool)
    ensures
        ok == messages_wf(peer_views(peers@), message_views(messages@)),
{
    let ghost rows = message_views(messages@);
    let ghost known = peer_views(peers@);
    let peer_count: usize = peers.len();
    let n: usize = messages.len();
    let mut k: usize = 0;
    while k < n
        invariant
            k <= n == messages@.len(),
            peer_count == peers@.len(),
            rows == message_views(messages@),
            known == peer_views(peers@),
            forall|a: int| 0 <= a < k ==> (#[trigger] rows[a]).id == a + 1,
            forall|a: int| 0 <= a < k ==> sender_known(known, (#[trigger] rows[a]).sender),
        decreases n - k,
    {
        if messages[k].id != k as u64 + 1 {
            assert(rows[k as int].id != k + 1);
            return false;
        }
        let sender: u64 = messages[k].sender;
        if !(sender < peer_count as u64 || sender == UNKNOWN_SENDER) {
            assert(!sender_known(known, rows[k as int].sender));
            return false;
        }
        k = k + 1;
    }
    true
}

/// Sets up the store of a chat room for the local user `username`.
///
/// Where no tables were found on disk, the store is new and holds the local
/// user as peer zero. Where tables were found, the store holds them as they
/// are, provided they keep the rules of the data model. The second part of
/// the result says whether tables were found.
pub fn init_db(found: Option<SavedTables>, username: &String) -> (result: Result<
    (Store, bool),
    StoreError,
>)
    ensures
        match found {
            None => result matches Ok((store, existed)) && !existed && store@ == fresh_tables(
                username@,
            ),
            Some(saved) => match result {
                Ok((store, existed)) => tables_wf(saved@) && existed && store@ == saved@,
                Err(e) => !tables_wf(saved@) && e == StoreError::Corrupt,
            },
        },
        result matches Ok((store, _)) ==> store.wf(),
{
    match found {
        None => {
            let local = Peer {
                id: LOCAL_PEER_ID,
                address: String::from_str("/ip4/127.0.0.1/tcp/0"),
                username: username.clone(),
            };
            let mut peers: Vec<Peer> = Vec::new();
            peers.push(local);
            let store = Store { peers, messages: Vec::new() };
            assert(store@.peers =~= fresh_tables(username@).peers);
            assert(store@.messages =~= fresh_tables(username@).messages);
            Ok((store, false))
        },
        Some(saved) => {
            if check_peers(&saved.peers) && check_messages(&saved.peers, &saved.messages) {
                Ok((Store { peers: saved.peers, messages: saved.messages }, true))
            } else {
                Err(StoreError::Corrupt)
            }
        },
    }
}

/// Puts a peer into the peer table, unless its username is taken, in which
/// case nothing changes. Gives the id of the new row where one was added.
pub fn put_peer_parts(peer_ip: String, peer_username: String, store: &mut Store) -> (inserted:
    Option<u64>)
    requires
        old(store).wf(),
    ensures
        final(store).wf(),
        final(store)@ == with_peer(old(store)@, peer_ip@, peer_username@),
        inserted is Some <==> !username_taken(old(store)@.peers, peer_username@),
        inserted matches Some(id) ==> id == old(store)@.peers.len(),
{
    proof {
        lemma_with_peer_wf(store@, peer_ip@, peer_username@);
    }
    match find_username(&store.peers, &peer_username) {
        Some(_) => None,
        None => {
            let id: u64 = store.peers.len() as u64;
            store.peers.push(Peer { id, address: peer_ip, username: peer_username });
            assert(store@.peers =~= with_peer(old(store)@, peer_ip@, peer_username@).peers);
            assert(store@.messages =~= old(store)@.messages);
            Some(id)
        },
    }
}

/// Appends a message of the peer called `sender_username`. Where no peer
/// has that username the message is filed under `UNKNOWN_SENDER`. Gives the
/// id of the new row; fails only where the table is full.
pub fn put_message_parts(
    time: u64,
    data: String,
    sender_username: String,
    store: &mut Store,
) -> (appended: Result<u64, StoreError>)
    requires
        old(store).wf(),
    ensures
        final(store).wf(),
        appended is Ok <==> old(store)@.messages.len() < u64::MAX,
        appended matches Ok(id) ==> id == old(store)@.messages.len() + 1 && final(store)@
            == with_message(
            old(store)@,
            time as nat,
            data@,
            sender_for(old(store)@.peers, sender_username@),
        ),
        appended matches Err(e) ==> e == StoreError::Full && final(store)@ == old(store)@,
{
    let sender: u64 = store.sender_id(&sender_username);
    proof {
        lemma_sender_for_known(store@.peers, sender_username@);
    }
    append_row(time, data, sender, store)
}

/// Appends a message of the peer with id `sender`. Gives the id of the new
/// row; fails where `sender` is neither a peer id nor `UNKNOWN_SENDER`, and
/// where the table is full.
pub fn put_message_parts_with_id(time: u64, data: String, sender: u64, store: &mut Store) -> (appended:
    Result<u64, StoreError>)
    requires
        old(store).wf(),
    ensures
        final(store).wf(),
        appended is Ok <==> sender_known(old(store)@.peers, sender as nat) && old(
            store,
        )@.messages.len() < u64::MAX,
        appended matches Ok(id) ==> id == old(store)@.messages.len() + 1 && final(store)@
            == with_message(old(store)@, time as nat, data@, sender as nat),
        appended matches Err(e) ==> final(store)@ == old(store)@ && e == (if sender_known(
            old(store)@.peers,
            sender as nat,
        ) {
            StoreError::Full
        } else {
            StoreError::UnknownSender
        }),
{
    if !(sender < store.peers.len() as u64 || sender == UNKNOWN_SENDER) {
        return Err(StoreError::UnknownSender);
    }
    append_row(time, data, sender, store)
}

/// Appends a message row whose sender is known.
fn append_row(time: u64, data: String, sender: u64, store: &mut Store) -> (appended: Result<
    u64,
    StoreError,
>)
    requires
        old(store).wf(),
        sender_known(old(store)@.peers, sender as nat),
    ensures
        final(store).wf(),
        appended is Ok <==> old(store)@.messages.len() < u64::MAX,
        appended matches Ok(id) ==> id == old(store)@.messages.len() + 1 && final(store)@
            == with_message(old(store)@, time as nat, data@, sender as nat),
        appended matches Err(e) ==> e == StoreError::Full && final(store)@ == old(store)@,
{
    let count: u64 = store.messages.len() as u64;
    if count == u64::MAX {
        return Err(StoreError::Full);
    }
    let id: u64 = count + 1;
    proof {
        lemma_with_message_wf(store@, time as nat, data@, sender as nat);
    }
    store.messages.push(Message { id, time, data, sender });
    assert(store@.messages =~= with_message(
        old(store)@,
        time as nat,
        data@,
        sender as nat,
    ).messages);
    assert(store@.peers =~= old(store)@.peers);
    Ok(id)
}

/// The id of the last message, or `None` where there is no message yet.
pub fn get_last_row_id(store: &Store) -> (last: Option<u64>)
    requires
        store.wf(),
    ensures
        last is Some <==> store@.messages.len() > 0,
        last matches Some(id) ==> id == store@.messages.len(),
{
    let count: usize = store.messages.len();
    if count == 0 {
        None
    } else {
        assert(store@.messages[count - 1].id == count);
        Some(store.messages[count - 1].id)
    }
}

/// The recent messages, oldest first, each with the username of its sender.
pub fn read_messages(store: &Store) -> (entries: Vec<HistoryEntry>)
    requires
        store.wf(),
    ensures
        history_views(entries@) == recent(store@),
{
    let count: usize = store.messages.len();
    let start: usize = if count <= RECENT_LIMIT {
        0
    } else {
        count - RECENT_LIMIT
    };
    let mut entries: Vec<HistoryEntry> = Vec::new();
    let mut k: usize = start;
    while k < count
        invariant
            start <= k <= count == store.messages@.len(),
            start == recent_start(store@.messages.len()),
            entries@.len() == k - start,
            forall|a: int|
                0 <= a < entries@.len() ==> (#[trigger] entries@[a])@ == history_entry(
                    store@,
                    start + a,
                ),
        decreases count - k,
    {
        let message: &Message = &store.messages[k];
        let username: Option<String> = if message.sender < store.peers.len() as u64 {
            Some(store.peers[message.sender as usize].username.clone())
        } else {
            None
        };
        let entry = HistoryEntry {
            id: message.id,
            time: message.time,
            data: message.data.clone(),
            username,
        };
        assert(entry@ == history_entry(store@, k as int));
        entries.push(entry);
        k = k + 1;
    }
    assert(history_views(entries@) =~= recent(store@));
    entries
}

} // verus!
