use listing_watch::models::{Exterior, Item};
use listing_watch::parsers::{parse_item_section, ItemSection};
use listing_watch::reconcile::{
    apply, reconcile, Event, Mutation, ReconcileError, Reconciler,
};
use listing_watch::store::{Store, StoreError};

fn listing(order_id: i32, price: i32) -> Item {
    Item {
        order_id,
        name: "AK-47".to_string(),
        kind: Some("Redline".to_string()),
        exterior: Some(Exterior::FT),
        price,
        has_sold: false,
        is_stattrak: false,
    }
}

fn shown(order_id: i32, price: i32) -> ItemSection {
    ItemSection { item: Some(listing(order_id, price)), order_id, price }
}

fn sold(order_id: i32, price: i32) -> ItemSection {
    ItemSection { item: None, order_id, price }
}

fn record(items: &[Item]) -> Store {
    Store::from_items(items).expect("distinct ids")
}

fn snapshot(store: &Store) -> Vec<Item> {
    store.keys().iter().map(|id| store.get(*id).expect("a listed id").clone()).collect()
}

fn same_records(a: &Store, b: &Store) -> bool {
    let left = snapshot(a);
    let right = snapshot(b);
    left.len() == right.len() && left.iter().zip(right.iter()).all(|(x, y)| x.same_as(y))
}

#[test]
fn sold_marker_for_unknown_listing_is_passed_over() {
    let section = parse_item_section("(sold) #77", "price: 100円").expect("a sold marker");
    let mut store = Store::new();
    let done = reconcile(&[section], &mut store).expect("a run");
    assert!(done.events.is_empty());
    assert!(done.mutations.is_empty());
    assert_eq!(store.len(), 0);
}

#[test]
fn unknown_listing_is_inserted_and_told() {
    let mut store = record(&[]);
    let done = reconcile(&[shown(1, 10), shown(2, 20)], &mut store).expect("a run");
    assert_eq!(done.events.len(), 2);
    assert!(matches!(&done.events[0], Event::NewListing { item } if item.order_id == 1));
    assert!(matches!(&done.events[1], Event::NewListing { item } if item.order_id == 2));
    assert_eq!(done.mutations.len(), 1);
    match &done.mutations[0] {
        Mutation::InsertBatch(batch) => {
            assert_eq!(batch.len(), 2);
            assert!(batch[0].same_as(&listing(1, 10)));
            assert!(batch[1].same_as(&listing(2, 20)));
        }
        other => panic!("unexpected: {:?}", other),
    }
    assert_eq!(store.keys(), vec![1, 2]);
    assert!(store.get(2).expect("listing 2").same_as(&listing(2, 20)));
}

#[test]
fn changed_price_is_recorded_and_told_once() {
    let mut store = record(&[listing(1, 10), listing(2, 20)]);
    let done = reconcile(&[shown(1, 10), shown(2, 25)], &mut store).expect("a run");
    assert_eq!(done.events.len(), 1);
    match &done.events[0] {
        Event::PriceChanged { item, old_price, new_price } => {
            assert_eq!(item.order_id, 2);
            assert_eq!(*old_price, 20);
            assert_eq!(*new_price, 25);
        }
        other => panic!("unexpected: {:?}", other),
    }
    assert_eq!(done.mutations.len(), 1);
    assert!(matches!(&done.mutations[0], Mutation::Update(item) if item.same_as(&listing(2, 25))));
    assert_eq!(store.get(2).map(|item| item.price), Some(25));
    assert_eq!(store.get(1).map(|item| item.price), Some(10));
}

#[test]
fn other_changed_fields_are_recorded_without_event() {
    let mut known = listing(1, 10);
    known.name = "Old name".to_string();
    known.has_sold = true;
    let mut store = record(&[known]);
    let done = reconcile(&[shown(1, 10)], &mut store).expect("a run");
    assert!(done.events.is_empty());
    assert_eq!(done.mutations.len(), 1);
    assert!(matches!(&done.mutations[0], Mutation::Update(item) if item.same_as(&listing(1, 10))));
    assert!(store.get(1).expect("listing 1").same_as(&listing(1, 10)));
}

#[test]
fn sold_marker_marks_a_known_listing_once() {
    let mut store = record(&[listing(1, 10)]);
    let done = reconcile(&[sold(1, 12)], &mut store).expect("a run");
    assert_eq!(done.events.len(), 1);
    assert!(
        matches!(&done.events[0], Event::Sold { item } if item.same_as(&listing(1, 10)))
    );
    assert_eq!(done.mutations.len(), 1);
    assert!(matches!(&done.mutations[0], Mutation::MarkSold { order_id: 1, price: 12 }));
    let now = store.get(1).expect("listing 1");
    assert!(now.has_sold);
    assert_eq!(now.price, 12);

    let again = reconcile(&[sold(1, 13)], &mut store).expect("a run");
    assert!(again.events.is_empty());
    assert!(again.mutations.is_empty());
    assert_eq!(store.get(1).map(|item| item.price), Some(12));
}

#[test]
fn vanished_listing_is_deleted_and_told_once() {
    let mut store = record(&[listing(1, 10), listing(2, 20), listing(3, 30)]);
    let done = reconcile(&[shown(2, 20)], &mut store).expect("a run");
    assert_eq!(done.events.len(), 2);
    assert!(matches!(&done.events[0], Event::Removed { item } if item.same_as(&listing(1, 10))));
    assert!(matches!(&done.events[1], Event::Removed { item } if item.same_as(&listing(3, 30))));
    assert_eq!(done.mutations.len(), 2);
    assert!(matches!(&done.mutations[0], Mutation::Delete(1)));
    assert!(matches!(&done.mutations[1], Mutation::Delete(3)));
    assert_eq!(store.keys(), vec![2]);
}

#[test]
fn events_come_in_scan_order_then_in_record_order() {
    let mut store = record(&[listing(9, 90), listing(5, 50), listing(1, 10), listing(7, 70)]);
    let scan = [shown(3, 30), sold(1, 11), shown(5, 55), sold(4, 40), shown(2, 20)];
    let done = reconcile(&scan, &mut store).expect("a run");
    let told: Vec<(u8, i32)> = done
        .events
        .iter()
        .map(|event| match event {
            Event::NewListing { item } => (0, item.order_id),
            Event::Sold { item } => (1, item.order_id),
            Event::PriceChanged { item, .. } => (2, item.order_id),
            Event::Removed { item } => (3, item.order_id),
        })
        .collect();
    assert_eq!(told, vec![(0, 3), (1, 1), (2, 5), (0, 2), (3, 9), (3, 7)]);
    let made: Vec<String> = done
        .mutations
        .iter()
        .map(|mutation| match mutation {
            Mutation::Update(item) => format!("update {}", item.order_id),
            Mutation::MarkSold { order_id, price } => format!("sold {} {}", order_id, price),
            Mutation::InsertBatch(batch) => {
                format!("insert {:?}", batch.iter().map(|item| item.order_id).collect::<Vec<_>>())
            }
            Mutation::Delete(order_id) => format!("delete {}", order_id),
        })
        .collect();
    assert_eq!(made, vec!["sold 1 11", "update 5", "insert [3, 2]", "delete 9", "delete 7"]);
    assert_eq!(store.keys(), vec![5, 1, 3, 2]);
}

#[test]
fn second_run_over_the_same_scan_finds_nothing_to_do() {
    let mut store = record(&[listing(9, 90), listing(5, 50), listing(1, 10)]);
    let scan = [shown(3, 30), sold(1, 11), shown(5, 55), sold(4, 40)];
    let first = reconcile(&scan, &mut store).expect("a run");
    assert!(!first.events.is_empty());
    let left = record(&snapshot(&store));
    let second = reconcile(&scan, &mut store).expect("a run");
    assert!(second.events.is_empty());
    assert!(second.mutations.is_empty());
    assert!(same_records(&store, &left));
}

#[test]
fn mutations_replayed_give_the_same_record() {
    let start = [listing(9, 90), listing(5, 50), listing(1, 10)];
    let mut store = record(&start);
    let scan = [shown(3, 30), sold(1, 11), shown(5, 55), shown(2, 20)];
    let done = reconcile(&scan, &mut store).expect("a run");
    let mut replayed = record(&start);
    for mutation in &done.mutations {
        assert_eq!(apply(&mut replayed, mutation), Ok(()));
    }
    assert!(same_records(&store, &replayed));
}

#[test]
fn new_listing_under_one_id_twice_gives_the_run_up() {
    let mut store = record(&[listing(1, 10), listing(2, 20)]);
    let scan = [shown(1, 15), shown(3, 30), shown(3, 31)];
    match reconcile(&scan, &mut store) {
        Err(ReconcileError::Store(StoreError::DuplicateKey(3))) => {}
        other => panic!("unexpected: {:?}", other),
    }
    assert_eq!(store.keys(), vec![1, 2]);
    assert_eq!(store.get(1).map(|item| item.price), Some(15));
}

#[test]
fn section_under_one_id_twice_is_decided_on_the_record_as_it_stands() {
    let mut store = record(&[listing(1, 10)]);
    let done = reconcile(&[shown(1, 15), shown(1, 15), shown(1, 20)], &mut store).expect("a run");
    assert_eq!(done.events.len(), 2);
    assert!(matches!(
        &done.events[0],
        Event::PriceChanged { old_price: 10, new_price: 15, .. }
    ));
    assert!(matches!(
        &done.events[1],
        Event::PriceChanged { old_price: 15, new_price: 20, .. }
    ));
    assert_eq!(store.get(1).map(|item| item.price), Some(20));
}

#[test]
fn reconciler_can_be_driven_step_by_step() {
    let known = listing(1, 10);
    let mut reconciler = Reconciler::new();
    let mutation = reconciler.section(&shown(1, 12), Some(&known));
    assert!(matches!(mutation, Some(Mutation::Update(ref item)) if item.price == 12));
    assert!(reconciler.section(&shown(2, 20), None).is_none());
    assert!(reconciler.section(&sold(3, 30), None).is_none());
    match reconciler.take_staged() {
        Some(Mutation::InsertBatch(batch)) => {
            assert_eq!(batch.len(), 1);
            assert_eq!(batch[0].order_id, 2);
        }
        other => panic!("unexpected: {:?}", other),
    }
    assert!(reconciler.take_staged().is_none());
    assert_eq!(reconciler.unseen(&[1, 8, 2, 9, 3]), vec![8, 9]);
    let gone = listing(8, 80);
    assert!(matches!(reconciler.removal(8, Some(&gone)), Ok(Mutation::Delete(8))));
    assert_eq!(reconciler.removal(9, None).err(), Some(ReconcileError::ItemNotFound));
    let events = reconciler.into_events();
    assert_eq!(events.len(), 3);
    assert!(matches!(&events[0], Event::PriceChanged { old_price: 10, new_price: 12, .. }));
    assert!(matches!(&events[1], Event::NewListing { item } if item.order_id == 2));
    assert!(matches!(&events[2], Event::Removed { item } if item.order_id == 8));
}

#[test]
fn events_are_told_in_words() {
    let mut vanilla = listing(1, 10);
    vanilla.kind = None;
    vanilla.exterior = None;
    let changed = Event::PriceChanged { item: listing(1, 15000), old_price: 12000, new_price: 15000 }
        .notification();
    assert_eq!(changed.title.as_deref(), Some("AK-47 | Redline の価格が変更されました"));
    assert_eq!(changed.body.as_deref(), Some("12000 円から 15000 円になりました。"));
    assert!(changed.icon.is_none() && changed.tag.is_none() && changed.sound.is_none());
    let sold = Event::Sold { item: vanilla }.notification();
    assert_eq!(sold.title.as_deref(), Some("AK-47 | Vanilla が売約済みになりました"));
    assert!(sold.body.is_none());
    let new = Event::NewListing { item: listing(1, 10) }.notification();
    assert_eq!(new.title.as_deref(), Some("AK-47 | Redline が新たに追加されました"));
    assert!(new.body.is_none());
    let removed = Event::Removed { item: listing(1, 10) }.notification();
    assert_eq!(removed.title.as_deref(), Some("AK-47 | Redline が削除されました"));
    assert!(removed.body.is_none());
}
