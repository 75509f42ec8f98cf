use mate::key::{KeyImpl, Token};
use mate::store::{create_delete, create_update, handle_update, keep_if_younger, Span, Store, Update, UpdateCallback};
use std::any::Any;
use std::sync::Arc;

type Value = Arc<dyn Any + Send + Sync>;

/// Checks the keys of the published updates, in order.
struct Expect {
    counter: u32,
}

impl UpdateCallback<Value> for Expect {
    fn call(&mut self, update: Update<Value>) {
        match self.counter {
            1 => assert_eq!(update.0, "a".into()),
            2 => assert_eq!(update.0, "b".into()),
            _ => unreachable!(),
        }
        self.counter += 1;
    }
}

/// Records every published update.
#[derive(Default)]
struct Record {
    updates: Vec<(String, Option<u32>)>,
}

impl UpdateCallback<u32> for Record {
    fn call(&mut self, update: Update<u32>) {
        self.updates.push((update.0.to_string(), update.1));
    }
}

impl UpdateCallback<u32> for &mut Record {
    fn call(&mut self, update: Update<u32>) {
        self.updates.push((update.0.to_string(), update.1));
    }
}

#[test]
fn store_test() {
    let token_a: Token<String> = Token::new("a");
    let token_b: Token<i32> = Token::new("b");

    let a = "This is a string".to_owned();
    let b = 5;

    let mut store = Store::new(Expect { counter: 1 });

    store.insert(&token_a, Arc::new(a.clone()) as Value);
    store.insert(&token_b, Arc::new(b) as Value);

    assert_eq!(store.get(&token_a).and_then(|v| v.downcast_ref::<String>()), Some(&a));
    assert_eq!(store.get(&token_b).and_then(|v| v.downcast_ref::<i32>()), Some(&b));
}

#[test]
fn store_insert_then_get_gives_value() {
    let key: Token<u32> = Token::new("robot.test");
    let mut record = Record::default();
    let mut store = Store::new(&mut record);
    assert_eq!(store.get(&key), None);
    store.insert(&key, 7);
    assert_eq!(store.get(&key), Some(&7));
    assert!(store.is_owned(&key));
    store.insert(&key, 9);
    assert_eq!(store.get(&key), Some(&9));
    drop(store);
    assert_eq!(
        record.updates,
        vec![("robot.test".to_owned(), Some(7)), ("robot.test".to_owned(), Some(9))]
    );
}

#[test]
fn store_remove_then_get_gives_none() {
    let key: Token<u32> = Token::new("k");
    let other: Token<u32> = Token::new("other");
    let mut record = Record::default();
    let mut store = Store::new(&mut record);
    store.insert(&key, 1);
    store.insert(&other, 2);
    store.remove(&key);
    assert_eq!(store.get(&key), None);
    assert_eq!(store.get(&other), Some(&2));
    drop(store);
    assert_eq!(record.updates.last(), Some(&("k".to_owned(), None)));
}

#[test]
fn store_refuses_insert_of_shared_key() {
    let key: Token<u32> = Token::new("shared");
    let mut record = Record::default();
    let mut store = Store::new(&mut record);
    store.handle_update_shared(&create_update(&key, 3));
    assert_eq!(store.get(&key), Some(&3));
    assert!(!store.is_owned(&key));
    store.insert(&key, 4);
    assert_eq!(store.get(&key), Some(&3));
    store.remove(&key);
    assert_eq!(store.get(&key), Some(&3));
    drop(store);
    assert!(record.updates.is_empty());
}

#[test]
fn store_refuses_shared_update_of_owned_key() {
    let key: Token<u32> = Token::new("mine");
    let mut store = Store::new(());
    store.insert(&key, 10);
    store.handle_update_shared(&create_update(&key, 11));
    assert_eq!(store.get(&key), Some(&10));
    store.handle_update_shared(&create_delete(&key));
    assert_eq!(store.get(&key), Some(&10));
}

#[test]
fn store_shared_removal_and_reset() {
    let key: Token<u32> = Token::new("theirs");
    let mine: Token<u32> = Token::new("mine");
    let mut store = Store::new(());
    store.insert(&mine, 1);
    store.handle_update_shared(&create_update(&key, 5));
    store.handle_update_shared(&create_delete(&key));
    assert_eq!(store.get(&key), None);
    store.handle_update_shared(&create_update(&key, 6));
    store.reset_shared();
    assert_eq!(store.get(&key), None);
    assert_eq!(store.get(&mine), Some(&1));
    store.reset();
    assert_eq!(store.get(&mine), None);
    assert!(store.get_with_time(&mine).is_none());
}

#[test]
fn store_owned_update_applies_unless_shared() {
    let key: Token<u32> = Token::new("own");
    let theirs: Token<u32> = Token::new("theirs");
    let mut store = Store::new(());
    store.handle_update_owned(&create_update(&key, 8));
    assert_eq!(store.get(&key), Some(&8));
    assert!(store.is_owned(&key));
    store.handle_update_shared(&create_update(&theirs, 1));
    store.handle_update_owned(&create_update(&theirs, 2));
    assert_eq!(store.get(&theirs), Some(&1));
    assert!(!store.is_owned(&theirs));
}

#[test]
fn store_refresh_publishes_each_owned_entry_once() {
    let a: Token<u32> = Token::new("a");
    let b: Token<u32> = Token::new("b");
    let s: Token<u32> = Token::new("s");
    let mut record = Record::default();
    let mut store = Store::new(&mut record);
    store.insert(&a, 1);
    store.insert(&b, 2);
    store.handle_update_shared(&create_update(&s, 3));
    store.refresh();
    drop(store);
    let mut refreshed = record.updates[2..].to_vec();
    refreshed.sort();
    assert_eq!(refreshed, vec![("a".to_owned(), Some(1)), ("b".to_owned(), Some(2))]);
}

#[test]
fn store_get_alive_depends_on_age() {
    let key: Token<u32> = Token::new("fresh");
    let missing: Token<u32> = Token::new("missing");
    let mut store = Store::new(());
    store.insert(&key, 1);
    assert_eq!(store.get_alive(&key, Span::from_millis(3_600_000)), Some(&1));
    assert_eq!(store.get_alive(&key, Span { nanos: 0 }), None);
    assert_eq!(store.get_alive(&missing, Span::from_millis(3_600_000)), None);
    let (value, _time) = store.get_with_time(&key).unwrap();
    assert_eq!(value, Some(&1));
}

#[test]
fn store_handle_update_picks_the_key() {
    let key: Token<u32> = Token::new("status");
    let other: Token<u32> = Token::new("other");
    assert_eq!(handle_update(&key, &create_update(&key, 4u32)), Some(4));
    assert_eq!(handle_update(&key, &create_update(&other, 4u32)), None);
    assert_eq!(handle_update::<u32, u32>(&key, &create_delete(&key)), None);
    let update: Update<u32> = create_update(&key, 1);
    assert_eq!(update.0, KeyImpl::from("status"));
}

#[test]
fn keep_if_younger_drops_stale_entries() {
    let v = 5u32;
    assert_eq!(keep_if_younger(Some(&v), 10, Span { nanos: 11 }), Some(&5));
    assert_eq!(keep_if_younger(Some(&v), 11, Span { nanos: 11 }), None);
    assert_eq!(keep_if_younger(Some(&v), 0, Span { nanos: 0 }), None);
    assert_eq!(keep_if_younger::<u32>(None, 0, Span { nanos: 1 }), None);
    assert_eq!(Span::from_millis(250).nanos, 250_000_000);
}
