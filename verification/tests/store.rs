use listing_watch::models::{Exterior, Item};
use listing_watch::store::{Store, StoreError};

fn listing(order_id: i32, price: i32) -> Item {
    Item {
        order_id,
        name: format!("Item {}", order_id),
        kind: Some("Kind".to_string()),
        exterior: Some(Exterior::MW),
        price,
        has_sold: false,
        is_stattrak: false,
    }
}

#[test]
fn empty_record_holds_nothing() {
    let store = Store::new();
    assert_eq!(store.len(), 0);
    assert!(store.get(1).is_none());
    assert!(store.keys().is_empty());
}

#[test]
fn batch_is_inserted_in_order() {
    let mut store = Store::new();
    assert_eq!(store.insert_batch(&[listing(3, 30), listing(1, 10)]), Ok(()));
    assert_eq!(store.insert_batch(&[listing(2, 20)]), Ok(()));
    assert_eq!(store.insert_batch(&[]), Ok(()));
    assert_eq!(store.keys(), vec![3, 1, 2]);
    assert_eq!(store.len(), 3);
    assert_eq!(store.get(1).map(|item| item.price), Some(10));
    assert_eq!(store.get(2).map(|item| item.price), Some(20));
    assert_eq!(store.get(3).map(|item| item.price), Some(30));
    assert!(store.get(4).is_none());
}

#[test]
fn batch_with_a_known_id_is_refused_whole() {
    let mut store = Store::from_items(&[listing(1, 10)]).expect("distinct ids");
    assert_eq!(
        store.insert_batch(&[listing(2, 20), listing(1, 11), listing(3, 30)]),
        Err(StoreError::DuplicateKey(1))
    );
    assert_eq!(store.keys(), vec![1]);
    assert_eq!(store.get(1).map(|item| item.price), Some(10));
}

#[test]
fn batch_with_an_id_twice_is_refused_whole() {
    let mut store = Store::new();
    assert_eq!(
        store.insert_batch(&[listing(5, 1), listing(6, 2), listing(5, 3)]),
        Err(StoreError::DuplicateKey(5))
    );
    assert_eq!(store.len(), 0);
    assert!(matches!(
        Store::from_items(&[listing(5, 1), listing(5, 3)]),
        Err(StoreError::DuplicateKey(5))
    ));
}

#[test]
fn update_replaces_the_listing_of_the_id() {
    let mut store = Store::from_items(&[listing(1, 10), listing(2, 20)]).expect("distinct ids");
    let mut changed = listing(2, 25);
    changed.name = "Renamed".to_string();
    changed.kind = None;
    changed.exterior = None;
    store.update(changed);
    assert_eq!(store.keys(), vec![1, 2]);
    let found = store.get(2).expect("listing 2");
    assert_eq!(found.price, 25);
    assert_eq!(found.name, "Renamed");
    assert_eq!(found.kind, None);
    assert_eq!(store.get(1).map(|item| item.price), Some(10));
    store.update(listing(9, 90));
    assert_eq!(store.keys(), vec![1, 2]);
    assert!(store.get(9).is_none());
}

#[test]
fn mark_sold_sets_flag_and_price() {
    let mut store = Store::from_items(&[listing(1, 10), listing(2, 20)]).expect("distinct ids");
    store.mark_sold(1, 12);
    let found = store.get(1).expect("listing 1");
    assert!(found.has_sold);
    assert_eq!(found.price, 12);
    assert_eq!(found.name, "Item 1");
    assert_eq!(found.kind.as_deref(), Some("Kind"));
    assert_eq!(found.exterior, Some(Exterior::MW));
    assert_eq!(store.get(2).map(|item| item.has_sold), Some(false));
    store.mark_sold(7, 1);
    assert_eq!(store.keys(), vec![1, 2]);
}

#[test]
fn delete_removes_the_listing_of_the_id() {
    let mut store =
        Store::from_items(&[listing(1, 10), listing(2, 20), listing(3, 30)]).expect("distinct ids");
    store.delete(2);
    assert_eq!(store.keys(), vec![1, 3]);
    assert!(store.get(2).is_none());
    store.delete(2);
    assert_eq!(store.keys(), vec![1, 3]);
    store.delete(1);
    store.delete(3);
    assert_eq!(store.len(), 0);
}
