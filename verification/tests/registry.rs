use render_scene::registry::Registry;

#[test]
fn names_keep_their_place_and_the_last_writer_wins() {
    let mut registry: Registry<u32> = Registry::new();
    assert_eq!(registry.len(), 0);
    assert_eq!(registry.position("a"), None);
    assert_eq!(registry.insert("a", 1), 0);
    assert_eq!(registry.insert("b", 2), 1);
    assert_eq!(registry.insert("a", 3), 0);
    assert_eq!(registry.len(), 2);
    assert_eq!(registry.position("b"), Some(1));
    assert!(registry.contains("a"));
    assert!(!registry.contains("c"));
    assert_eq!(*registry.get(0), 3);
    assert_eq!(*registry.get(1), 2);
    *registry.get_mut(1) = 9;
    assert_eq!(*registry.get(1), 9);
    assert_eq!(*registry.get(0), 3);
}

#[test]
fn the_empty_name_is_a_name() {
    let mut registry: Registry<u8> = Registry::new();
    registry.insert("", 1);
    registry.insert("x", 2);
    assert_eq!(registry.position(""), Some(0));
    assert_eq!(registry.insert("", 5), 0);
    assert_eq!(*registry.get(0), 5);
}
