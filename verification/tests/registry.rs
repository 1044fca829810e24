use vinox::registry::BlockRegistry;
use vinox::storage::BlockData;

#[test]
fn registering_gives_stable_slots() {
    let mut registry = BlockRegistry::new();
    assert_eq!(registry.len(), 0);
    let air = registry.register(BlockData::air());
    let cobble = registry.register(BlockData::cobblestone());
    let grass = registry.register(BlockData::grass());
    assert_eq!((air, cobble, grass), (0, 1, 2));
    assert_eq!(registry.len(), 3);
    // Registering an identifier again returns its existing slot.
    assert_eq!(registry.register(BlockData::cobblestone()), 1);
    assert_eq!(registry.len(), 3);
}

#[test]
fn lookup_finds_only_registered_identifiers() {
    let mut registry = BlockRegistry::new();
    registry.register(BlockData::air());
    registry.register(BlockData::grass());
    assert_eq!(registry.lookup(&BlockData::grass()), Some(1));
    assert_eq!(registry.lookup(&BlockData::cobblestone()), None);
    let custom = BlockData::new("mod_pack".to_string(), "air".to_string());
    // Equality is exact pair equality: a different namespace is a
    // different identifier.
    assert_eq!(registry.lookup(&custom), None);
}

#[test]
fn get_returns_the_registered_identifier() {
    let mut registry = BlockRegistry::new();
    let idx = registry.register(BlockData::new("vinox".to_string(), "dirt".to_string()));
    let back = registry.get(idx);
    assert!(back.same_ident(&BlockData::new("vinox".to_string(), "dirt".to_string())));
}
