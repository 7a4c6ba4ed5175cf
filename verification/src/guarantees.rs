//! What a run of the reconciler guarantees: a changed price and a vanished
//! listing are each told once and recorded, and a second run over the same
//! scan finds nothing left to do.

use crate::models::ItemView;
use crate::parsers::ItemSectionView;
use crate::reconcile::{
    after_insert, after_removals, after_sections, changed, decide, opt_seq, reconciled, unseen,
    Decision, EventView, MutationView, Progress, ReconcileError, ReconcilerView,
};
use crate::store::{
    distinct_keys, keys_of, lemma_inserted, lemma_inserted_ok, lemma_lookup, lemma_lookup_push,
    lemma_marked_sold, lemma_removed, lemma_replaced, lookup, removed,
};
use vstd::prelude::*;

verus! {

/// The order ids of `sections`, in scan order.
pub open spec fn ids_of(sections: Seq<ItemSectionView>) -> Seq<i32> {
    Seq::new(sections.len(), |k: int| sections[k].order_id)
}

/// The listing of each section has the order id of its section.
pub open spec fn keyed(sections: Seq<ItemSectionView>) -> bool {
    forall|k: int|
        0 <= k < sections.len() ==> ((#[trigger] sections[k]).item matches Some(listing)
            ==> listing.order_id == sections[k].order_id)
}

/// No two sections have the same order id.
pub open spec fn distinct_ids(sections: Seq<ItemSectionView>) -> bool {
    forall|i: int, j: int|
        0 <= i < j < sections.len() ==> (#[trigger] sections[i]).order_id != (
        #[trigger] sections[j]).order_id
}

/// At most one section has the order id `id`.
pub open spec fn at_most_once(sections: Seq<ItemSectionView>, id: i32) -> bool {
    forall|i: int, j: int|
        0 <= i < j < sections.len() ==> !((#[trigger] sections[i]).order_id == id && (
        #[trigger] sections[j]).order_id == id)
}

/// The events of `events` that are about the listing `id`, in their order.
pub open spec fn events_about(events: Seq<EventView>, id: i32) -> Seq<EventView>
    decreases events.len(),
{
    if events.len() == 0 {
        Seq::empty()
    } else if events.last().item().order_id == id {
        events_about(events.drop_last(), id).push(events.last())
    } else {
        events_about(events.drop_last(), id)
    }
}

/// The listing that the record holds for the order id of `found` once the
/// section is read, where it held `existing` before.
pub open spec fn settled(found: ItemSectionView, existing: Option<ItemView>) -> Option<ItemView> {
    match existing {
        Some(known) => match found.item {
            Some(listing) => Some(listing),
            None => if known.has_sold {
                Some(known)
            } else {
                Some(ItemView { has_sold: true, price: found.price, ..known })
            },
        },
        None => None,
    }
}

/// The events about a listing, of one run of events behind another, are its
/// events of the first behind its events of the second.
pub proof fn lemma_events_about_add(a: Seq<EventView>, b: Seq<EventView>, id: i32)
    ensures
        events_about(a + b, id) == events_about(a, id) + events_about(b, id),
    decreases b.len(),
{
    if b.len() > 0 {
        lemma_events_about_add(a, b.drop_last(), id);
        assert((a + b).drop_last() =~= a + b.drop_last());
    }
}

/// The events about a listing, of at most one event.
pub proof fn lemma_events_about_one(event: Option<EventView>, id: i32)
    ensures
        events_about(opt_seq(event), id) == (match event {
            Some(e) => if e.item().order_id == id {
                seq![e]
            } else {
                Seq::empty()
            },
            None => Seq::empty(),
        }),
{
    if event is Some {
        assert(events_about(opt_seq(event).drop_last(), id) =~= Seq::<EventView>::empty());
    }
}

/// Reading sections changes no key of the record, and the ids seen are
/// those of the sections.
pub proof fn lemma_sections_keep_keys(sections: Seq<ItemSectionView>, store: Seq<ItemView>)
    ensures
        keys_of(after_sections(sections, store).store) == keys_of(store),
        distinct_keys(store) ==> distinct_keys(after_sections(sections, store).store),
        after_sections(sections, store).state.seen == ids_of(sections),
    decreases sections.len(),
{
    if sections.len() > 0 {
        lemma_sections_keep_keys(sections.drop_last(), store);
        let before = after_sections(sections.drop_last(), store);
        let found = sections.last();
        let d = decide(found, lookup(before.store, found.order_id));
        match d.mutation {
            Some(MutationView::Update(item)) => {
                lemma_replaced(before.store, item, 0);
            },
            Some(MutationView::MarkSold { order_id, price }) => {
                lemma_marked_sold(before.store, order_id, price, 0);
            },
            _ => {},
        }
    }
}

/// What one section leaves behind for a listing: for its own listing, what
/// `settled` says; for any other, what was there.
pub proof fn lemma_section_settles(
    found: ItemSectionView,
    store: Seq<ItemView>,
    id: i32,
)
    requires
        found.item matches Some(listing) ==> listing.order_id == found.order_id,
    ensures
        ({
            let existing = lookup(store, found.order_id);
            let d = decide(found, existing);
            &&& lookup(changed(store, d.mutation), id) == (if id == found.order_id {
                settled(found, existing)
            } else {
                lookup(store, id)
            })
            &&& d.event matches Some(e) ==> e.item().order_id == found.order_id
            &&& d.staged matches Some(s) ==> s.order_id == found.order_id
            &&& !(d.event matches Some(EventView::Removed { item }))
        }),
{
    let existing = lookup(store, found.order_id);
    let d = decide(found, existing);
    lemma_lookup(store, found.order_id);
    match d.mutation {
        Some(MutationView::Update(item)) => {
            lemma_replaced(store, item, id);
        },
        Some(MutationView::MarkSold { order_id, price }) => {
            lemma_marked_sold(store, order_id, price, id);
        },
        _ => {},
    }
}

/// What the sections leave behind for one listing, where at most one
/// section has its order id: that section alone decides, on the listing that
/// the record held at the start. It settles the listing of the record, it
/// gives the only event about the listing, and it stages the only new
/// listing under that id. Without such a section, nothing is changed,
/// nothing is told and nothing is staged.
pub proof fn lemma_sections_settle(
    sections: Seq<ItemSectionView>,
    store: Seq<ItemView>,
    id: i32,
)
    requires
        keyed(sections),
        at_most_once(sections, id),
    ensures
        ({
            let p = after_sections(sections, store);
            &&& !ids_of(sections).contains(id) ==> {
                &&& lookup(p.store, id) == lookup(store, id)
                &&& events_about(p.state.events, id) == Seq::<EventView>::empty()
                &&& lookup(p.state.staged, id) is None
            }
            &&& forall|k: int|
                0 <= k < sections.len() && (#[trigger] sections[k]).order_id == id ==> {
                    &&& lookup(p.store, id) == settled(sections[k], lookup(store, id))
                    &&& events_about(p.state.events, id) == opt_seq(
                        decide(sections[k], lookup(store, id)).event,
                    )
                    &&& lookup(p.state.staged, id) == decide(sections[k], lookup(store, id)).staged
                }
        }),
    decreases sections.len(),
{
    if sections.len() > 0 {
        let front = sections.drop_last();
        let found = sections.last();
        lemma_sections_settle(front, store, id);
        let before = after_sections(front, store);
        let existing = lookup(before.store, found.order_id);
        let d = decide(found, existing);
        lemma_section_settles(found, before.store, id);
        lemma_events_about_add(before.state.events, opt_seq(d.event), id);
        assert(forall|k: int| 0 <= k < front.len() ==> front[k] == sections[k]);
        lemma_events_about_one(d.event, id);
        if let Some(s) = d.staged {
            assert(before.state.staged + opt_seq(d.staged) =~= before.state.staged.push(s));
            lemma_lookup_push(before.state.staged, s, id);
        }
        if found.order_id == id {
            assert(ids_of(sections)[sections.len() - 1] == id);
        } else if !ids_of(sections).contains(id) && ids_of(front).contains(id) {
            let k = choose|k: int| 0 <= k < front.len() && ids_of(front)[k] == id;
            assert(ids_of(sections)[k] == id);
        }
    }
}

/// The ids that were not seen are the keys that are not among the ids seen;
/// where no key comes twice, none of them comes twice.
pub proof fn lemma_unseen(keys: Seq<i32>, seen: Seq<i32>)
    ensures
        forall|id: i32|
            unseen(keys, seen).contains(id) <==> keys.contains(id) && !seen.contains(id),
        keys.no_duplicates() ==> unseen(keys, seen).no_duplicates(),
    decreases keys.len(),
{
    if keys.len() > 0 {
        let front = keys.drop_last();
        lemma_unseen(front, seen);
        let u0 = unseen(front, seen);
        let u = unseen(keys, seen);
        assert forall|id: i32| u.contains(id) <==> keys.contains(id) && !seen.contains(
            id,
        ) by {
            if u.contains(id) {
                let k = choose|k: int| 0 <= k < u.len() && u[k] == id;
                if front.contains(id) {
                    let j = choose|j: int| 0 <= j < front.len() && front[j] == id;
                }
            }
            if keys.contains(id) && !seen.contains(id) {
                let j = choose|j: int| 0 <= j < keys.len() && keys[j] == id;
                if j < front.len() {
                    assert(front[j] == id);
                    let k = choose|k: int| 0 <= k < u0.len() && u0[k] == id;
                    assert(u[k] == id);
                } else {
                    assert(u[u.len() - 1] == id);
                }
            }
        }
    }
}

/// Deleting listings that the record holds, no id twice, goes through: each
/// of them is gone, with one event that tells so, and every other listing
/// is as it was.
pub proof fn lemma_removals(ids: Seq<i32>, p: Progress)
    requires
        distinct_keys(p.store),
        ids.no_duplicates(),
        forall|k: int| 0 <= k < ids.len() ==> lookup(p.store, #[trigger] ids[k]) is Some,
    ensures
        after_removals(ids, p) matches Ok(q) && {
            &&& distinct_keys(q.store)
            &&& q.state.seen == p.state.seen
            &&& q.state.staged == p.state.staged
            &&& ids.len() == 0 ==> q == p
            &&& forall|id: i32|
                lookup(q.store, id) == (if ids.contains(id) {
                    None
                } else {
                    lookup(p.store, id)
                })
            &&& forall|id: i32|
                events_about(q.state.events, id) == events_about(p.state.events, id) + (
                if ids.contains(id) {
                    seq![EventView::Removed { item: lookup(p.store, id).unwrap() }]
                } else {
                    Seq::empty()
                })
        },
    decreases ids.len(),
{
    if ids.len() > 0 {
        let front = ids.drop_last();
        let a = ids.last();
        lemma_removals(front, p);
        let q0 = after_removals(front, p).unwrap();
        let item = lookup(q0.store, a).unwrap();
        lemma_lookup(p.store, a);
        let q = after_removals(ids, p).unwrap();
        assert forall|id: i32|
            lookup(q.store, id) == (if ids.contains(id) {
                None
            } else {
                lookup(p.store, id)
            }) by {
            lemma_removed(q0.store, a, id);
            if front.contains(id) {
                let j = choose|j: int| 0 <= j < front.len() && front[j] == id;
            }
            if ids.contains(id) && id != a {
                let j = choose|j: int| 0 <= j < ids.len() && ids[j] == id;
                assert(front[j] == id);
            }
        }
        lemma_removed(q0.store, a, a);
        assert forall|id: i32|
            events_about(q.state.events, id) == events_about(p.state.events, id) + (
            if ids.contains(id) {
                seq![EventView::Removed { item: lookup(p.store, id).unwrap() }]
            } else {
                Seq::empty()
            }) by {
            let e = EventView::Removed { item };
            assert(q.state.events.drop_last() =~= q0.state.events);
            if front.contains(id) {
                let j = choose|j: int| 0 <= j < front.len() && front[j] == id;
            }
            if ids.contains(id) && id != a {
                let j = choose|j: int| 0 <= j < ids.len() && ids[j] == id;
                assert(front[j] == id);
            }
            if id != a {
                assert(events_about(q.state.events, id) == events_about(q0.state.events, id));
            }
            if id == a {
                assert(events_about(q.state.events, id) == events_about(q0.state.events, id).push(
                    e,
                ));
            }
        }
    }
}

/// The deletions of a run go through: every listing whose order id was not
/// seen is gone, with one event that tells so, and every other listing is
/// as it was.
pub proof fn lemma_sweep(p: Progress)
    requires
        distinct_keys(p.store),
    ensures
        after_removals(unseen(keys_of(p.store), p.state.seen), p) matches Ok(q) && {
            &&& distinct_keys(q.store)
            &&& q.state.seen == p.state.seen
            &&& q.state.staged == p.state.staged
            &&& unseen(keys_of(p.store), p.state.seen).len() == 0 ==> q == p
            &&& forall|id: i32|
                lookup(q.store, id) == (if p.state.seen.contains(id) {
                    lookup(p.store, id)
                } else {
                    None
                })
            &&& forall|id: i32|
                events_about(q.state.events, id) == events_about(p.state.events, id) + (
                if !p.state.seen.contains(id) && lookup(p.store, id) is Some {
                    seq![EventView::Removed { item: lookup(p.store, id).unwrap() }]
                } else {
                    Seq::empty()
                })
        },
{
    let keys = keys_of(p.store);
    let ids = unseen(keys, p.state.seen);
    lemma_unseen(keys, p.state.seen);
    assert forall|k: int| 0 <= k < ids.len() implies lookup(p.store, #[trigger] ids[k]) is Some by {
        lemma_lookup(p.store, ids[k]);
    }
    lemma_removals(ids, p);
    let q = after_removals(ids, p).unwrap();
    assert forall|id: i32|
        events_about(q.state.events, id) == events_about(p.state.events, id) + (
        if !p.state.seen.contains(id) && lookup(p.store, id) is Some {
            seq![EventView::Removed { item: lookup(p.store, id).unwrap() }]
        } else {
            Seq::empty()
        }) by {
        lemma_lookup(p.store, id);
    }
}

/// The insertion of a run, where it goes through, leaves every listing of
/// the record as it was and changes neither the events nor the ids seen.
pub proof fn lemma_insert_keeps(p: Progress)
    requires
        distinct_keys(p.store),
    ensures
        after_insert(p) matches Ok(q) ==> {
            &&& distinct_keys(q.store)
            &&& q.state.seen == p.state.seen
            &&& q.state.events == p.state.events
            &&& forall|id: i32|
                lookup(q.store, id) == (if lookup(p.store, id) is Some {
                    lookup(p.store, id)
                } else {
                    lookup(p.state.staged, id)
                })
        },
{
    if p.state.staged.len() > 0 {
        lemma_inserted(p.store, p.state.staged);
    }
}

/// A known listing that the scan does not have is deleted, and told once.
///
/// Where the record holds a listing for an order id that no section of the
/// scan has, a run that goes through leaves no listing for that id, and
/// gives one event about it: that the listing, as the record held it, was
/// removed.
pub proof fn lemma_vanished_listing_removed(
    sections: Seq<ItemSectionView>,
    store: Seq<ItemView>,
    id: i32,
)
    requires
        distinct_keys(store),
        keyed(sections),
        lookup(store, id) is Some,
        !ids_of(sections).contains(id),
        reconciled(sections, store) is Ok,
    ensures
        reconciled(sections, store) matches Ok(done) && {
            &&& lookup(done.store, id) is None
            &&& events_about(done.state.events, id) == seq![
                EventView::Removed { item: lookup(store, id).unwrap() },
            ]
        },
{
    assert(at_most_once(sections, id)) by {
        assert forall|i: int, j: int| 0 <= i < j < sections.len() implies !((
        #[trigger] sections[i]).order_id == id && (#[trigger] sections[j]).order_id == id) by {
            if sections[i].order_id == id {
                assert(ids_of(sections)[i] == id);
            }
        }
    }
    lemma_sections_settle(sections, store, id);
    lemma_sections_keep_keys(sections, store);
    let p = after_sections(sections, store);
    lemma_insert_keeps(p);
    let p1 = after_insert(p).unwrap();
    lemma_sweep(p1);
}

/// A known listing whose price is not the one recorded gets the price of
/// the scan, and the change is told once.
///
/// Where one section of the scan, and no other, has the order id of a
/// listing that the record holds, and the section shows the listing at
/// another price, a run that goes through leaves the listing as the section
/// shows it, and gives one event about it: that its price changed from the
/// price recorded to the price shown.
pub proof fn lemma_price_change_told_once(
    sections: Seq<ItemSectionView>,
    store: Seq<ItemView>,
    k: int,
)
    requires
        distinct_keys(store),
        keyed(sections),
        0 <= k < sections.len(),
        at_most_once(sections, sections[k].order_id),
        sections[k].item matches Some(listing) && lookup(store, sections[k].order_id) matches Some(
            known,
        ) && listing.price != known.price,
        reconciled(sections, store) is Ok,
    ensures
        reconciled(sections, store) matches Ok(done) && {
            &&& lookup(done.store, sections[k].order_id) == sections[k].item
            &&& events_about(done.state.events, sections[k].order_id) == seq![
                EventView::PriceChanged {
                    item: sections[k].item.unwrap(),
                    old_price: lookup(store, sections[k].order_id).unwrap().price,
                    new_price: sections[k].item.unwrap().price,
                },
            ]
        },
{
    let id = sections[k].order_id;
    lemma_sections_settle(sections, store, id);
    lemma_sections_keep_keys(sections, store);
    let p = after_sections(sections, store);
    lemma_insert_keeps(p);
    let p1 = after_insert(p).unwrap();
    lemma_sweep(p1);
}

/// What is staged, where no two sections share an order id: listings under
/// ids of the scan that the record does not hold, no id twice.
pub proof fn lemma_staged_are_new(sections: Seq<ItemSectionView>, store: Seq<ItemView>)
    requires
        keyed(sections),
        distinct_ids(sections),
    ensures
        ({
            let staged = after_sections(sections, store).state.staged;
            &&& distinct_keys(staged)
            &&& forall|j: int|
                0 <= j < staged.len() ==> ids_of(sections).contains(
                    (#[trigger] staged[j]).order_id,
                ) && lookup(store, staged[j].order_id) is None
        }),
    decreases sections.len(),
{
    if sections.len() > 0 {
        let front = sections.drop_last();
        let found = sections.last();
        let n = sections.len() - 1;
        lemma_staged_are_new(front, store);
        lemma_sections_keep_keys(front, store);
        let before = after_sections(front, store);
        let existing = lookup(before.store, found.order_id);
        let d = decide(found, existing);
        let staged = after_sections(sections, store).state.staged;
        lemma_lookup(before.store, found.order_id);
        lemma_lookup(store, found.order_id);
        assert forall|j: int| 0 <= j < before.state.staged.len() implies ids_of(sections).contains(
            (#[trigger] before.state.staged[j]).order_id,
        ) by {
            let id = before.state.staged[j].order_id;
            let k = choose|k: int| 0 <= k < front.len() && ids_of(front)[k] == id;
            assert(ids_of(sections)[k] == id);
        }
        if let Some(s) = d.staged {
            assert(ids_of(sections)[n] == s.order_id);
        }
    }
}

/// Where no two sections share an order id, the run goes through.
pub proof fn lemma_run_succeeds(sections: Seq<ItemSectionView>, store: Seq<ItemView>)
    requires
        distinct_keys(store),
        keyed(sections),
        distinct_ids(sections),
    ensures
        reconciled(sections, store) is Ok,
{
    let p = after_sections(sections, store);
    lemma_sections_keep_keys(sections, store);
    lemma_staged_are_new(sections, store);
    assert forall|k: int| 0 <= k < p.state.staged.len() implies lookup(
        p.store,
        (#[trigger] p.state.staged[k]).order_id,
    ) is None by {
        lemma_lookup(p.store, p.state.staged[k].order_id);
        lemma_lookup(store, p.state.staged[k].order_id);
    }
    lemma_inserted_ok(p.store, p.state.staged);
    lemma_insert_keeps(p);
    lemma_sweep(after_insert(p).unwrap());
}

/// Sections that call for nothing leave everything as it is.
pub proof fn lemma_quiet_sections(sections: Seq<ItemSectionView>, store: Seq<ItemView>)
    requires
        forall|k: int|
            0 <= k < sections.len() ==> decide(
                #[trigger] sections[k],
                lookup(store, sections[k].order_id),
            ) == Decision::nothing(),
    ensures
        after_sections(sections, store) == (Progress {
            store,
            state: ReconcilerView {
                seen: ids_of(sections),
                staged: Seq::empty(),
                events: Seq::empty(),
            },
            mutations: Seq::empty(),
        }),
    decreases sections.len(),
{
    if sections.len() == 0 {
        assert(ids_of(sections) =~= Seq::<i32>::empty());
    } else {
        let front = sections.drop_last();
        let found = sections.last();
        lemma_quiet_sections(front, store);
        assert(ids_of(front).push(found.order_id) =~= ids_of(sections));
    }
}

/// A second run over the same scan finds nothing to do.
///
/// Where no two sections of the scan share an order id, a run goes through,
/// and a second run over the same sections, against the record as the first
/// run left it, goes through as well: it gives no event, makes no change,
/// and leaves the record as it found it.
pub proof fn lemma_second_run_quiet(sections: Seq<ItemSectionView>, store: Seq<ItemView>)
    requires
        distinct_keys(store),
        keyed(sections),
        distinct_ids(sections),
    ensures
        reconciled(sections, store) matches Ok(first) && reconciled(sections, first.store) == Ok::<
            Progress,
            ReconcileError,
        >(
            Progress {
                store: first.store,
                state: ReconcilerView {
                    seen: ids_of(sections),
                    staged: Seq::empty(),
                    events: Seq::empty(),
                },
                mutations: Seq::empty(),
            },
        ),
{
    lemma_run_succeeds(sections, store);
    let p = after_sections(sections, store);
    lemma_sections_keep_keys(sections, store);
    lemma_insert_keeps(p);
    let p1 = after_insert(p).unwrap();
    lemma_sweep(p1);
    let first = reconciled(sections, store).unwrap();
    let left = first.store;
    assert forall|k: int| 0 <= k < sections.len() implies decide(
        #[trigger] sections[k],
        lookup(left, sections[k].order_id),
    ) == Decision::nothing() by {
        let id = sections[k].order_id;
        lemma_sections_settle(sections, store, id);
        assert(ids_of(sections)[k] == id);
        lemma_lookup(store, id);
    }
    lemma_quiet_sections(sections, left);
    let doomed = unseen(keys_of(left), ids_of(sections));
    lemma_unseen(keys_of(left), ids_of(sections));
    assert(doomed.len() == 0) by {
        if doomed.len() > 0 {
            let id = doomed[0];
            lemma_lookup(left, id);
        }
    }
}

} // verus!
