use entity_cache::facade::EntityStore;
use entity_cache::key::compose_key;
use entity_cache::types::{Key, Namespace, Prefix};

fn key_of(namespace: &str, prefix: &str, identifier: &str) -> String {
    compose_key(
        &Namespace(namespace.to_string()),
        &Prefix(prefix.to_string()),
        &Key(identifier.to_string()),
    )
}

#[test]
fn compose_key_joins_three_segments_with_colons() {
    assert_eq!(key_of("Test", "TestEntity", "42"), "Test:TestEntity:42");
}

#[test]
fn compose_key_keeps_empty_segments() {
    assert_eq!(key_of("", "", ""), "::");
    assert_eq!(key_of("Test", "", "42"), "Test::42");
}

#[test]
fn compose_key_does_not_touch_a_delimiter_inside_a_segment() {
    assert_eq!(key_of("a:b", "c", "d"), "a:b:c:d");
    assert_eq!(key_of("a", "b:c", "d"), "a:b:c:d");
}

#[test]
fn compose_key_keeps_characters_outside_ascii() {
    assert_eq!(key_of("Prüfung", "Entität", "ключ"), "Prüfung:Entität:ключ");
}

#[test]
fn compose_key_tells_colon_free_triples_apart() {
    let segments = ["", "a", "b", "ab", "Test", "TestEntity"];
    let mut seen: Vec<(String, (usize, usize, usize))> = Vec::new();
    for (i, namespace) in segments.iter().enumerate() {
        for (j, prefix) in segments.iter().enumerate() {
            for (k, identifier) in segments.iter().enumerate() {
                let key = key_of(namespace, prefix, identifier);
                for (other, triple) in seen.iter() {
                    assert!(*other != key, "{:?} and {:?} share a key", triple, (i, j, k));
                }
                seen.push((key, (i, j, k)));
            }
        }
    }
    assert_eq!(seen.len(), 216);
}

#[test]
fn compose_key_is_the_same_on_every_call() {
    assert_eq!(key_of("Test", "TestEntity", "7"), key_of("Test", "TestEntity", "7"));
}

#[test]
fn entity_store_key_uses_its_namespace() {
    let store = EntityStore::new(Namespace("Test".to_string()));
    let key = store.key(&Prefix("TestEntity".to_string()), &Key("42".to_string()));
    assert_eq!(key, "Test:TestEntity:42");
    assert_eq!(store.namespace.0, "Test");
}
