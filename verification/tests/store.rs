use paste_core::access::DeletionToken;
use paste_core::errors::Error;
use paste_core::store::{Entry, Store};

fn token(text: &str) -> DeletionToken {
    DeletionToken::parse(Some(text)).unwrap()
}

fn conflict() -> Error {
    Error::Sqlite(String::from("identifier is already taken"))
}

#[test]
fn new_table_is_empty() {
    let store = Store::new();
    assert_eq!(store.len(), 0);
    assert_eq!(store.clock(), 0);
    assert_eq!(store.get("abc123"), Err(Error::NotFound));
}

#[test]
fn entry_keeps_what_it_was_made_with() {
    let entry = Entry::new(String::from("abc123"), vec![1, 2, 3], 7, token("tok1"), 99);
    assert_eq!(entry.id(), "abc123");
    assert_eq!(entry.compressed_content(), &[1, 2, 3]);
    assert_eq!(entry.content_length(), 7);
    assert_eq!(entry.deletion_token().as_str(), "tok1");
    assert_eq!(entry.created_at(), 99);
    assert_eq!(entry.clone(), entry);
}

#[test]
fn inserted_entry_is_found() {
    let mut store = Store::new();
    assert_eq!(store.insert("abc123", vec![9, 8], 2, token("tok1"), 5), Ok(()));
    assert_eq!(store.len(), 1);
    let entry = store.get("abc123").unwrap();
    assert_eq!(
        entry,
        &Entry::new(String::from("abc123"), vec![9, 8], 2, token("tok1"), 5)
    );
}

#[test]
fn second_insert_under_one_identifier_conflicts() {
    let mut store = Store::new();
    assert_eq!(store.insert("abc123", vec![1], 1, token("tok1"), 5), Ok(()));
    assert_eq!(store.insert("abc123", vec![2], 1, token("tok2"), 6), Err(conflict()));
    // nothing was overwritten
    assert_eq!(store.len(), 1);
    assert_eq!(store.clock(), 5);
    let entry = store.get("abc123").unwrap();
    assert_eq!(entry.compressed_content(), &[1]);
    assert_eq!(entry.deletion_token().as_str(), "tok1");
    assert_eq!(entry.created_at(), 5);
}

#[test]
fn entries_under_other_identifiers_do_not_conflict() {
    let mut store = Store::new();
    assert_eq!(store.insert("abc123", vec![1], 1, token("t"), 1), Ok(()));
    assert_eq!(store.insert("abc124", vec![2], 1, token("t"), 2), Ok(()));
    assert_eq!(store.insert("ABC123", vec![3], 1, token("t"), 3), Ok(()));
    assert_eq!(store.len(), 3);
    assert_eq!(store.get("abc123").unwrap().compressed_content(), &[1]);
    assert_eq!(store.get("abc124").unwrap().compressed_content(), &[2]);
    assert_eq!(store.get("ABC123").unwrap().compressed_content(), &[3]);
}

#[test]
fn missing_entry_is_not_found() {
    let mut store = Store::new();
    store.insert("abc123", vec![1], 1, token("t"), 1).unwrap();
    assert_eq!(store.get("abc124"), Err(Error::NotFound));
    assert_eq!(store.get(""), Err(Error::NotFound));
}

#[test]
fn deleted_entry_is_gone() {
    let mut store = Store::new();
    store.insert("abc123", vec![1], 1, token("t"), 1).unwrap();
    store.insert("abc124", vec![2], 1, token("t"), 2).unwrap();
    assert_eq!(store.delete("abc123"), Ok(()));
    assert_eq!(store.len(), 1);
    assert_eq!(store.get("abc123"), Err(Error::NotFound));
    assert_eq!(store.get("abc124").unwrap().compressed_content(), &[2]);
}

#[test]
fn deleting_a_missing_entry_is_not_found() {
    let mut store = Store::new();
    assert_eq!(store.delete("abc123"), Err(Error::NotFound));
    store.insert("abc123", vec![1], 1, token("t"), 1).unwrap();
    assert_eq!(store.delete("abc124"), Err(Error::NotFound));
    assert_eq!(store.len(), 1);
    assert_eq!(store.delete("abc123"), Ok(()));
    assert_eq!(store.delete("abc123"), Err(Error::NotFound));
}

#[test]
fn identifier_is_free_again_after_deletion() {
    let mut store = Store::new();
    store.insert("abc123", vec![1], 1, token("old"), 1).unwrap();
    store.delete("abc123").unwrap();
    assert_eq!(store.insert("abc123", vec![2], 1, token("new"), 2), Ok(()));
    let entry = store.get("abc123").unwrap();
    assert_eq!(entry.compressed_content(), &[2]);
    assert_eq!(entry.deletion_token().as_str(), "new");
}

#[test]
fn entries_are_stamped_in_order() {
    let mut store = Store::new();
    store.insert("first1", vec![1], 1, token("t"), 100).unwrap();
    assert_eq!(store.clock(), 100);
    // the clock of the caller went back
    store.insert("second", vec![1], 1, token("t"), 40).unwrap();
    assert_eq!(store.get("second").unwrap().created_at(), 100);
    assert_eq!(store.clock(), 100);
    store.insert("third1", vec![1], 1, token("t"), 101).unwrap();
    assert_eq!(store.get("third1").unwrap().created_at(), 101);
    assert_eq!(store.get("first1").unwrap().created_at(), 100);
    assert_eq!(store.clock(), 101);
}

#[test]
fn deletion_does_not_turn_the_clock_back() {
    let mut store = Store::new();
    store.insert("first1", vec![1], 1, token("t"), 100).unwrap();
    store.delete("first1").unwrap();
    assert_eq!(store.clock(), 100);
    store.insert("second", vec![1], 1, token("t"), 1).unwrap();
    assert_eq!(store.get("second").unwrap().created_at(), 100);
}
