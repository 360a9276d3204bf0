//! The registry of known peers: which username each network address has
//! announced. The first username bound to an address stays.

use vstd::hash_map::StringHashMap;
use vstd::prelude::*;

verus! {

/// Why a lookup in the registry fails.
#[derive(Debug, Clone, Copy, PartialEq, Eq)]
pub enum RegistryError {
    /// The address was never registered.
    SenderUnknown,
}

/// What a registry holds after `address` has been registered with
/// `username`: unchanged where the address is already bound, and with the
/// new binding otherwise.
pub open spec fn registered(
    names: Map<Seq<char>, Seq<char>>,
    address: Seq<char>,
    username: Seq<char>,
) -> Map<Seq<char>, Seq<char>> {
    if names.contains_key(address) {
        names
    } else {
        names.insert(address, username)
    }
}

/// Registering an address a second time, under whatever username, changes
/// nothing: the address resolves to the username it was first bound to.
pub proof fn lemma_first_registration_wins(
    names: Map<Seq<char>, Seq<char>>,
    address: Seq<char>,
    first: Seq<char>,
    second: Seq<char>,
)
    ensures
        registered(registered(names, address, first), address, second) == registered(
            names,
            address,
            first,
        ),
        registered(names, address, first).contains_key(address),
        !names.contains_key(address) ==> registered(
            registered(names, address, first),
            address,
            second,
        )[address] == first,
{
}

/// The known peers of one session, by address.
pub struct PeerRegistry {
    names: StringHashMap<String>,
}

impl View for PeerRegistry {
    type V = Map<Seq<char>, Seq<char>>;

    closed spec fn view(&self) -> Map<Seq<char>, Seq<char>> {
        Map::new(|address: Seq<char>| self.names@.contains_key(address), |address: Seq<char>| self.names@[address]@)
    }
}

impl PeerRegistry {
    /// A registry that knows nobody.
    pub fn new() -> (registry: Self)
        ensures
            registry@ == Map::<Seq<char>, Seq<char>>::empty(),
    {
        let registry = PeerRegistry { names: StringHashMap::new() };
        assert(registry@ =~= Map::<Seq<char>, Seq<char>>::empty());
        registry
    }

    /// Whether `address` has been registered.
    pub fn contains(&self, address: &str) -> (known: bool)
        ensures
            known == self@.contains_key(address@),
    {
        self.names.contains_key(address)
    }

    /// Binds `address` to `username` unless the address is bound already.
    pub fn register(&mut self, address: String, username: String)
        ensures
            final(self)@ == registered(old(self)@, address@, username@),
    {
        if !self.names.contains_key(address.as_str()) {
            self.names.insert(address, username);
            assert(self@ =~= registered(old(self)@, address@, username@));
        }
    }

    /// The username that `address` is bound to.
    /// Fails exactly when the address was never registered.
    pub fn resolve(&self, address: &str) -> (username: Result<String, RegistryError>)
        ensures
            username is Ok <==> self@.contains_key(address@),
            username matches Ok(name) ==> name@ == self@[address@],
            username matches Err(e) ==> e == RegistryError::SenderUnknown,
    {
        match self.names.get(address) {
            Some(name) => Ok(name.clone()),
            None => Err(RegistryError::SenderUnknown),
        }
    }
}

} // verus!
