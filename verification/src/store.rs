//! The record of known listings, kept in memory: one listing for each order
//! id, in the order in which they were inserted.

use crate::models::{Item, ItemView};
use vstd::prelude::*;

verus! {

/// No two listings of `listings` have the same order id.
pub open spec fn distinct_keys(listings: Seq<ItemView>) -> bool {
    forall|i: int, j: int|
        0 <= i < j < listings.len() ==> (#[trigger] listings[i]).order_id != (
        #[trigger] listings[j]).order_id
}

/// The place of the first listing with order id `id`, from place `i` on.
pub open spec fn index_from(listings: Seq<ItemView>, id: i32, i: int) -> Option<int>
    decreases listings.len() - i,
{
    if i < 0 || i >= listings.len() {
        None
    } else if listings[i].order_id == id {
        Some(i)
    } else {
        index_from(listings, id, i + 1)
    }
}

/// The place of the listing with order id `id`.
pub open spec fn index_of(listings: Seq<ItemView>, id: i32) -> Option<int> {
    index_from(listings, id, 0)
}

/// The listing with order id `id`.
pub open spec fn lookup(listings: Seq<ItemView>, id: i32) -> Option<ItemView> {
    match index_of(listings, id) {
        Some(i) => Some(listings[i]),
        None => None,
    }
}

/// The order ids of `listings`, in their order.
pub open spec fn keys_of(listings: Seq<ItemView>) -> Seq<i32> {
    Seq::new(listings.len(), |i: int| listings[i].order_id)
}

/// `listings` with the listing that has the order id of `item` replaced by
/// `item`; without such a listing, `listings` as they are.
pub open spec fn replaced(listings: Seq<ItemView>, item: ItemView) -> Seq<ItemView> {
    match index_of(listings, item.order_id) {
        Some(i) => listings.update(i, item),
        None => listings,
    }
}

/// `listings` with the listing `id` marked as sold, at `price`.
pub open spec fn marked_sold(listings: Seq<ItemView>, id: i32, price: i32) -> Seq<ItemView> {
    match index_of(listings, id) {
        Some(i) => listings.update(i, ItemView { has_sold: true, price, ..listings[i] }),
        None => listings,
    }
}

/// `listings` without the listing `id`.
pub open spec fn removed(listings: Seq<ItemView>, id: i32) -> Seq<ItemView> {
    match index_of(listings, id) {
        Some(i) => listings.remove(i),
        None => listings,
    }
}

/// Why the record refused a change.
#[derive(Clone, Copy, Debug, PartialEq, Eq, Structural)]
pub enum StoreError {
    /// A listing with this order id is in the record already.
    DuplicateKey(i32),
}

/// `listings` with `batch` behind them, if that leaves every order id
/// unique; else the first order id of `batch` that is taken already.
pub open spec fn inserted(listings: Seq<ItemView>, batch: Seq<ItemView>) -> Result<
    Seq<ItemView>,
    StoreError,
>
    decreases batch.len(),
{
    if batch.len() == 0 {
        Ok(listings)
    } else {
        match inserted(listings, batch.drop_last()) {
            Ok(before) => if index_of(before, batch.last().order_id) is Some {
                Err(StoreError::DuplicateKey(batch.last().order_id))
            } else {
                Ok(before.push(batch.last()))
            },
            Err(e) => Err(e),
        }
    }
}

/// Once a listing of the batch has been refused, the batch is refused.
pub proof fn lemma_inserted_stops(listings: Seq<ItemView>, batch: Seq<ItemView>, n: int)
    requires
        0 <= n <= batch.len(),
        inserted(listings, batch.take(n)) is Err,
    ensures
        inserted(listings, batch) == inserted(listings, batch.take(n)),
    decreases batch.len() - n,
{
    if n < batch.len() {
        assert(batch.take(n + 1).drop_last() =~= batch.take(n));
        lemma_inserted_stops(listings, batch, n + 1);
    } else {
        assert(batch.take(n) =~= batch);
    }
}

/// What `index_from` finds is the first listing with the id, and it finds
/// one wherever there is one.
pub proof fn lemma_index_from(listings: Seq<ItemView>, id: i32, i: int)
    requires
        0 <= i <= listings.len(),
    ensures
        match index_from(listings, id, i) {
            Some(k) => {
                &&& i <= k < listings.len()
                &&& listings[k].order_id == id
                &&& forall|j: int| i <= j < k ==> (#[trigger] listings[j]).order_id != id
            },
            None => forall|j: int| i <= j < listings.len() ==> (#[trigger] listings[j]).order_id
                != id,
        },
    decreases listings.len() - i,
{
    if i < listings.len() && listings[i].order_id != id {
        lemma_index_from(listings, id, i + 1);
    }
}

/// Among distinct order ids, the place of a listing is the place of its id.
pub proof fn lemma_index_of_place(listings: Seq<ItemView>, k: int)
    requires
        distinct_keys(listings),
        0 <= k < listings.len(),
    ensures
        index_of(listings, listings[k].order_id) == Some(k),
{
    lemma_index_from(listings, listings[k].order_id, 0);
}

/// Replacing a listing by one with its order id keeps the ids as they are.
pub proof fn lemma_update_keeps_keys(listings: Seq<ItemView>, k: int, item: ItemView)
    requires
        0 <= k < listings.len(),
        item.order_id == listings[k].order_id,
    ensures
        keys_of(listings.update(k, item)) == keys_of(listings),
        distinct_keys(listings) ==> distinct_keys(listings.update(k, item)),
        forall|id: i32| index_of(listings.update(k, item), id) == index_of(listings, id),
{
    let after = listings.update(k, item);
    assert forall|id: i32| index_of(after, id) == index_of(listings, id) by {
        lemma_index_same_keys(listings, after, id, 0);
    }
}

/// Where two runs of listings have the same order ids place by place, an id
/// is found at the same place in both.
pub proof fn lemma_index_same_keys(a: Seq<ItemView>, b: Seq<ItemView>, id: i32, i: int)
    requires
        a.len() == b.len(),
        forall|k: int| 0 <= k < a.len() ==> a[k].order_id == b[k].order_id,
        0 <= i <= a.len(),
    ensures
        index_from(a, id, i) == index_from(b, id, i),
    decreases a.len() - i,
{
    if i < a.len() && a[i].order_id != id {
        lemma_index_same_keys(a, b, id, i + 1);
    }
}

/// Without one of them, distinct listings are distinct still.
pub proof fn lemma_remove_keeps_distinct(listings: Seq<ItemView>, k: int)
    requires
        distinct_keys(listings),
        0 <= k < listings.len(),
    ensures
        distinct_keys(listings.remove(k)),
        index_of(listings.remove(k), listings[k].order_id) is None,
{
    let after = listings.remove(k);
    lemma_index_from(after, listings[k].order_id, 0);
}

/// A listing whose order id is new, put behind distinct listings, leaves
/// them distinct.
pub proof fn lemma_push_keeps_distinct(listings: Seq<ItemView>, item: ItemView)
    requires
        distinct_keys(listings),
        index_of(listings, item.order_id) is None,
    ensures
        distinct_keys(listings.push(item)),
{
    lemma_index_from(listings, item.order_id, 0);
}

/// The listing that is found for an id has that id, and an id has a listing
/// exactly where it is among the keys.
pub proof fn lemma_lookup(listings: Seq<ItemView>, id: i32)
    ensures
        lookup(listings, id) matches Some(item) ==> item.order_id == id,
        lookup(listings, id) is Some <==> keys_of(listings).contains(id),
{
    lemma_index_from(listings, id, 0);
    if let Some(k) = index_of(listings, id) {
        assert(keys_of(listings)[k] == id);
    }
}

/// Replacing a listing changes what is found for its order id, and for no
/// other; the keys stay as they are.
pub proof fn lemma_replaced(listings: Seq<ItemView>, item: ItemView, id: i32)
    ensures
        keys_of(replaced(listings, item)) == keys_of(listings),
        distinct_keys(listings) ==> distinct_keys(replaced(listings, item)),
        lookup(replaced(listings, item), id) == (if id == item.order_id && lookup(
            listings,
            id,
        ) is Some {
            Some(item)
        } else {
            lookup(listings, id)
        }),
{
    lemma_index_from(listings, item.order_id, 0);
    match index_of(listings, item.order_id) {
        Some(k) => {
            lemma_update_keeps_keys(listings, k, item);
            lemma_index_from(listings, id, 0);
        },
        None => {},
    }
}

/// Marking a listing as sold changes what is found for its order id, and
/// for no other; the keys stay as they are.
pub proof fn lemma_marked_sold(listings: Seq<ItemView>, order_id: i32, price: i32, id: i32)
    ensures
        keys_of(marked_sold(listings, order_id, price)) == keys_of(listings),
        distinct_keys(listings) ==> distinct_keys(marked_sold(listings, order_id, price)),
        lookup(marked_sold(listings, order_id, price), id) == (if id == order_id {
            match lookup(listings, id) {
                Some(known) => Some(ItemView { has_sold: true, price, ..known }),
                None => None,
            }
        } else {
            lookup(listings, id)
        }),
{
    lemma_index_from(listings, order_id, 0);
    match index_of(listings, order_id) {
        Some(k) => {
            let sold = ItemView { has_sold: true, price, ..listings[k] };
            lemma_update_keeps_keys(listings, k, sold);
            lemma_index_from(listings, id, 0);
        },
        None => {},
    }
}

/// Among distinct order ids, removing a listing leaves nothing to find for
/// its order id, and changes nothing for any other.
pub proof fn lemma_removed(listings: Seq<ItemView>, order_id: i32, id: i32)
    requires
        distinct_keys(listings),
    ensures
        distinct_keys(removed(listings, order_id)),
        lookup(removed(listings, order_id), id) == (if id == order_id {
            None
        } else {
            lookup(listings, id)
        }),
{
    lemma_index_from(listings, order_id, 0);
    match index_of(listings, order_id) {
        Some(k) => {
            lemma_remove_keeps_distinct(listings, k);
            let after = listings.remove(k);
            if id != order_id {
                lemma_index_from(listings, id, 0);
                lemma_index_from(after, id, 0);
                if let Some(i) = index_of(listings, id) {
                    lemma_index_of_place(after, if i < k { i } else { i - 1 });
                }
            }
        },
        None => {},
    }
}

/// A batch that the record accepts stands behind the listings that were
/// there, and the order ids are distinct still. What was found before is
/// found still; for any other id, what the batch holds is found.
pub proof fn lemma_inserted(listings: Seq<ItemView>, batch: Seq<ItemView>)
    requires
        distinct_keys(listings),
    ensures
        inserted(listings, batch) matches Ok(after) ==> {
            &&& after == listings + batch
            &&& distinct_keys(after)
            &&& forall|id: i32|
                lookup(after, id) == (if lookup(listings, id) is Some {
                    lookup(listings, id)
                } else {
                    lookup(batch, id)
                })
        },
    decreases batch.len(),
{
    if batch.len() > 0 {
        lemma_inserted(listings, batch.drop_last());
        if let Ok(before) = inserted(listings, batch.drop_last()) {
            if index_of(before, batch.last().order_id) is None {
                let after = before.push(batch.last());
                lemma_push_keeps_distinct(before, batch.last());
                assert forall|id: i32|
                    lookup(after, id) == (if lookup(listings, id) is Some {
                        lookup(listings, id)
                    } else {
                        lookup(batch, id)
                    }) by {
                    lemma_lookup_push(before, batch.last(), id);
                    lemma_lookup_push(batch.drop_last(), batch.last(), id);
                    assert(batch.drop_last().push(batch.last()) =~= batch);
                }
            }
        }
    }
}

/// With a listing put behind the others, an id is found where it was found
/// before, and else in the new listing.
pub proof fn lemma_lookup_push(listings: Seq<ItemView>, item: ItemView, id: i32)
    ensures
        lookup(listings.push(item), id) == (if lookup(listings, id) is Some {
            lookup(listings, id)
        } else if item.order_id == id {
            Some(item)
        } else {
            None
        }),
{
    let after = listings.push(item);
    lemma_index_from(listings, id, 0);
    lemma_index_from(after, id, 0);
    match index_of(listings, id) {
        Some(k) => {
            assert(after[k] == listings[k]);
        },
        None => {
            if index_of(after, id) is None {
                assert(after[listings.len() as int] == item);
            }
        },
    }
}

/// A batch of new order ids, no two alike, is accepted.
pub proof fn lemma_inserted_ok(listings: Seq<ItemView>, batch: Seq<ItemView>)
    requires
        distinct_keys(listings),
        distinct_keys(batch),
        forall|k: int| 0 <= k < batch.len() ==> lookup(listings, (#[trigger] batch[k]).order_id)
            is None,
    ensures
        inserted(listings, batch) is Ok,
    decreases batch.len(),
{
    if batch.len() > 0 {
        let front = batch.drop_last();
        lemma_inserted_ok(listings, front);
        lemma_inserted(listings, front);
        let before = inserted(listings, front).unwrap();
        let id = batch.last().order_id;
        lemma_index_from(front, id, 0);
        assert(lookup(before, id) is None);
    }
}

/// The record of known listings.
#[derive(Debug)]
pub struct Store {
    items: Vec<Item>,
}

impl View for Store {
    type V = Seq<ItemView>;

    closed spec fn view(&self) -> Seq<ItemView> {
        self.items.deep_view()
    }
}

impl Store {
    /// No two listings of the record share an order id. Every record that
    /// this module hands out is well formed, and its methods keep it so.
    pub open spec fn well_formed(&self) -> bool {
        distinct_keys(self@)
    }

    /// The empty record.
    pub fn new() -> (r: Store)
        ensures
            r@ == Seq::<ItemView>::empty(),
            r.well_formed(),
    {
        let items: Vec<Item> = Vec::new();
        Store { items }
    }

    /// The record of `items`, if no two of them share an order id.
    pub fn from_items(items: &[Item]) -> (r: Result<Store, StoreError>)
        ensures
            match inserted(Seq::empty(), items.deep_view()) {
                Ok(listings) => r matches Ok(store) && store@ == listings && store.well_formed(),
                Err(e) => r matches Err(err) && err == e,
            },
    {
        let mut store = Store::new();
        match store.insert_batch(items) {
            Ok(()) => Ok(store),
            Err(e) => Err(e),
        }
    }

    /// How many listings the record holds.
    pub fn len(&self) -> (r: usize)
        ensures
            r == self@.len(),
    {
        self.items.len()
    }

    fn find(&self, order_id: i32) -> (r: Option<usize>)
        ensures
            match r {
                Some(k) => index_of(self@, order_id) == Some(k as int) && k < self.items.len(),
                None => index_of(self@, order_id) is None,
            },
    {
        let mut i: usize = 0;
        while i < self.items.len()
            invariant
                i <= self.items.len(),
                index_of(self@, order_id) == index_from(self@, order_id, i as int),
            decreases self.items.len() - i,
        {
            if self.items[i].order_id == order_id {
                return Some(i);
            }
            i = i + 1;
        }
        None
    }

    /// The listing with order id `order_id`, if the record holds one.
    pub fn get(&self, order_id: i32) -> (r: Option<&Item>)
        ensures
            r.deep_view() == lookup(self@, order_id),
    {
        match self.find(order_id) {
            Some(k) => Some(&self.items[k]),
            None => None,
        }
    }

    /// Replaces the listing that has the order id of `item` by `item`. A
    /// record without such a listing is left as it is.
    pub fn update(&mut self, item: Item)
        requires
            old(self).well_formed(),
        ensures
            final(self)@ == replaced(old(self)@, item@),
            final(self).well_formed(),
    {
        match self.find(item.order_id) {
            Some(k) => {
                proof {
                    lemma_index_from(self@, item.order_id, 0);
                    lemma_update_keeps_keys(self@, k as int, item@);
                }
                let ghost before = self.items.deep_view();
                self.items.set(k, item);
            },
            None => {},
        }
    }

    /// Marks the listing `order_id` as sold, at `price`. A record without
    /// such a listing is left as it is.
    pub fn mark_sold(&mut self, order_id: i32, price: i32)
        requires
            old(self).well_formed(),
        ensures
            final(self)@ == marked_sold(old(self)@, order_id, price),
            final(self).well_formed(),
    {
        match self.find(order_id) {
            Some(k) => {
                let sold = {
                    let item = &self.items[k];
                    let copy = item.clone();
                    Item {
                        order_id: copy.order_id,
                        name: copy.name,
                        kind: copy.kind,
                        exterior: copy.exterior,
                        price,
                        has_sold: true,
                        is_stattrak: copy.is_stattrak,
                    }
                };
                proof {
                    lemma_index_from(self@, order_id, 0);
                    lemma_update_keeps_keys(self@, k as int, sold@);
                }
                let ghost before = self.items.deep_view();
                self.items.set(k, sold);
            },
            None => {},
        }
    }

    /// Removes the listing `order_id`. A record without such a listing is
    /// left as it is.
    pub fn delete(&mut self, order_id: i32)
        requires
            old(self).well_formed(),
        ensures
            final(self)@ == removed(old(self)@, order_id),
            final(self).well_formed(),
    {
        match self.find(order_id) {
            Some(k) => {
                proof {
                    lemma_remove_keeps_distinct(self@, k as int);
                }
                let ghost before = self.items.deep_view();
                self.items.remove(k);
            },
            None => {},
        }
    }

    /// Puts the listings of `batch` behind those of the record, all of them
    /// or none: where an order id of `batch` is in the record already, or
    /// comes twice in `batch`, the record is left as it was.
    pub fn insert_batch(&mut self, batch: &[Item]) -> (r: Result<(), StoreError>)
        requires
            old(self).well_formed(),
        ensures
            final(self).well_formed(),
            match inserted(old(self)@, batch.deep_view()) {
                Ok(listings) => r is Ok && final(self)@ == listings,
                Err(e) => r == Err::<(), StoreError>(e) && final(self)@ == old(self)@,
            },
    {
        let len = self.items.len();
        let ghost start = self.items.deep_view();
        let ghost all = batch.deep_view();
        let mut i: usize = 0;
        while i < batch.len()
            invariant
                i <= batch.len(),
                all == batch.deep_view(),
                start == old(self)@,
                len == start.len(),
                inserted(start, all.take(i as int)) == Ok::<Seq<ItemView>, StoreError>(
                    self.items.deep_view(),
                ),
                self.items.deep_view().len() == len + i,
                self.items.deep_view().take(len as int) == start,
                distinct_keys(self.items.deep_view()),
                distinct_keys(start),
            decreases batch.len() - i,
        {
            proof {
                assert(all.take(i + 1).drop_last() =~= all.take(i as int));
            }
            let item = &batch[i];
            match self.find(item.order_id) {
                Some(_) => {
                    proof {
                        lemma_inserted_stops(start, all, i + 1);
                    }
                    self.items.truncate(len);
                    assert(self.items.deep_view() =~= start);
                    return Err(StoreError::DuplicateKey(item.order_id));
                },
                None => {
                    let copy = item.clone();
                    proof {
                        lemma_push_keeps_distinct(self.items.deep_view(), copy@);
                    }
                    let ghost before = self.items.deep_view();
                    self.items.push(copy);
                    assert(self.items.deep_view() =~= before.push(copy@));
                },
            }
            i = i + 1;
        }
        assert(all.take(all.len() as int) =~= all);
        Ok(())
    }

    /// The order ids of the record, in its order.
    pub fn keys(&self) -> (r: Vec<i32>)
        ensures
            r@ == keys_of(self@),
    {
        let mut r: Vec<i32> = Vec::new();
        let mut i: usize = 0;
        while i < self.items.len()
            invariant
                i <= self.items.len(),
                r.len() == i,
                forall|k: int| 0 <= k < i ==> r@[k] == self@[k].order_id,
            decreases self.items.len() - i,
        {
            r.push(self.items[i].order_id);
            i = i + 1;
        }
        r
    }
}

} // verus!
