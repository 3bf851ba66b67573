use rusty_trello::Id;

fn payload(id: &Id) -> &str {
    match id {
        Id::EntityId(value) => value,
        Id::DeletedEntityId(value) => value,
        Id::PlaceHolderId(value) => value,
    }
}

fn has_placeholder_shape(text: &str) -> bool {
    let bytes = text.as_bytes();
    bytes.len() == 7
        && bytes[0].is_ascii_uppercase()
        && bytes[1..].iter().all(|b| b.is_ascii_digit())
}

#[test]
fn test_id_eq() {
    assert!(Id::EntityId("test".to_string()) == Id::EntityId("test".to_string()));
    assert!(Id::EntityId("test".to_string()) != Id::EntityId("pp".to_string()));
    assert!(Id::EntityId("test".to_string()) != Id::PlaceHolderId("test".to_string()));
    assert!(Id::EntityId("test".to_string()) != Id::DeletedEntityId("test".to_string()));
}

#[test]
fn test_generated_placeholder_id_is_valid() {
    match Id::generate_placeholder_id() {
        Id::EntityId(_) => assert!(false),
        Id::DeletedEntityId(_) => assert!(false),
        Id::PlaceHolderId(value) => assert!(!value.is_empty()),
    }
}

#[test]
fn equal_variants_with_equal_payloads_are_equal() {
    assert!(Id::DeletedEntityId("x".to_string()) == Id::DeletedEntityId("x".to_string()));
    assert!(Id::PlaceHolderId("x".to_string()) == Id::PlaceHolderId("x".to_string()));
    assert!(Id::EntityId(String::new()) == Id::EntityId(String::new()));
}

#[test]
fn different_payloads_are_unequal_in_every_variant() {
    assert!(Id::DeletedEntityId("a".to_string()) != Id::DeletedEntityId("b".to_string()));
    assert!(Id::PlaceHolderId("a".to_string()) != Id::PlaceHolderId("b".to_string()));
    assert!(Id::EntityId("a".to_string()) != Id::EntityId("A".to_string()));
    assert!(Id::EntityId("a".to_string()) != Id::EntityId("ab".to_string()));
}

#[test]
fn different_variants_are_unequal_in_both_directions() {
    let payload = "5f1a".to_string();
    assert!(Id::PlaceHolderId(payload.clone()) != Id::EntityId(payload.clone()));
    assert!(Id::DeletedEntityId(payload.clone()) != Id::EntityId(payload.clone()));
    assert!(Id::DeletedEntityId(payload.clone()) != Id::PlaceHolderId(payload.clone()));
    assert!(Id::PlaceHolderId(payload.clone()) != Id::DeletedEntityId(payload));
}

#[test]
fn clone_is_equal_to_what_was_cloned() {
    let id = Id::DeletedEntityId("gone".to_string());
    let copy = id.clone();
    assert_eq!(copy, id);
    assert!(matches!(copy, Id::DeletedEntityId(_)));
}

#[test]
fn placeholder_pads_the_number_to_six_digits() {
    assert_eq!(Id::placeholder('Q', 4821), Some(Id::PlaceHolderId("Q004821".to_string())));
    assert_eq!(Id::placeholder('A', 0), Some(Id::PlaceHolderId("A000000".to_string())));
    assert_eq!(Id::placeholder('Z', 999_999), Some(Id::PlaceHolderId("Z999999".to_string())));
    assert_eq!(Id::placeholder('M', 123_456), Some(Id::PlaceHolderId("M123456".to_string())));
    assert_eq!(Id::placeholder('B', 7), Some(Id::PlaceHolderId("B000007".to_string())));
    assert_eq!(Id::placeholder('C', 100_000), Some(Id::PlaceHolderId("C100000".to_string())));
}

#[test]
fn placeholder_is_refused_outside_letters_and_six_digits() {
    assert_eq!(Id::placeholder('a', 1), None);
    assert_eq!(Id::placeholder('@', 1), None);
    assert_eq!(Id::placeholder('[', 1), None);
    assert_eq!(Id::placeholder('5', 1), None);
    assert_eq!(Id::placeholder('\u{c9}', 1), None);
    assert_eq!(Id::placeholder('Z', 1_000_000), None);
    assert_eq!(Id::placeholder('A', u32::MAX), None);
}

#[test]
fn generated_placeholders_have_the_placeholder_shape() {
    for _ in 0..500 {
        let id = Id::generate_placeholder_id();
        assert!(matches!(id, Id::PlaceHolderId(_)));
        let text = payload(&id);
        assert!(has_placeholder_shape(text), "{}", text);
        let number: u32 = text[1..].parse().unwrap();
        assert!(number < 999_999);
    }
}

#[test]
fn generated_placeholders_differ() {
    let first = Id::generate_placeholder_id();
    let mut other_letter = false;
    let mut other_number = false;
    for _ in 0..200 {
        let next = Id::generate_placeholder_id();
        if payload(&next)[..1] != payload(&first)[..1] {
            other_letter = true;
        }
        if payload(&next)[1..] != payload(&first)[1..] {
            other_number = true;
        }
    }
    assert!(other_letter);
    assert!(other_number);
}

#[test]
fn identities_key_a_hash_set_by_variant_and_payload() {
    let mut set = std::collections::HashSet::new();
    assert!(set.insert(Id::EntityId("X".to_string())));
    assert!(set.insert(Id::PlaceHolderId("X".to_string())));
    assert!(set.insert(Id::DeletedEntityId("X".to_string())));
    assert!(set.insert(Id::EntityId("Y".to_string())));
    assert!(!set.insert(Id::EntityId("X".to_string())));
    assert_eq!(set.len(), 4);
    assert!(set.contains(&Id::PlaceHolderId("X".to_string())));
    assert!(!set.contains(&Id::PlaceHolderId("Y".to_string())));
}
