use p2p_chat::registry::{PeerRegistry, RegistryError};

#[test]
fn new_registry_knows_nobody() {
    let registry = PeerRegistry::new();
    assert!(!registry.contains("A"));
    assert_eq!(registry.resolve("A"), Err(RegistryError::SenderUnknown));
}

#[test]
fn registered_address_resolves() {
    let mut registry = PeerRegistry::new();
    registry.register("A".to_string(), "bob".to_string());
    assert!(registry.contains("A"));
    assert_eq!(registry.resolve("A"), Ok("bob".to_string()));
    assert!(!registry.contains("B"));
}

#[test]
fn first_username_wins() {
    let mut registry = PeerRegistry::new();
    registry.register("A".to_string(), "bob".to_string());
    registry.register("A".to_string(), "mallory".to_string());
    assert_eq!(registry.resolve("A"), Ok("bob".to_string()));
}

#[test]
fn addresses_are_kept_apart() {
    let mut registry = PeerRegistry::new();
    registry.register("A".to_string(), "bob".to_string());
    registry.register("B".to_string(), "carol".to_string());
    registry.register("C".to_string(), "bob".to_string());
    assert_eq!(registry.resolve("A"), Ok("bob".to_string()));
    assert_eq!(registry.resolve("B"), Ok("carol".to_string()));
    assert_eq!(registry.resolve("C"), Ok("bob".to_string()));
    assert_eq!(registry.resolve(""), Err(RegistryError::SenderUnknown));
}
