//! The reconciler: what a fresh scan of the page changes in the record of
//! known listings, and which events it gives rise to.

use crate::fcm::notification::{Notification, NotificationBuilder, NotificationView};
use crate::guarantees::{distinct_ids, keyed, lemma_run_succeeds, lemma_sweep};
use crate::models::{Item, ItemView};
use crate::parsers::{ItemSection, ItemSectionView};
use crate::store::{inserted, keys_of, lookup, marked_sold, removed, replaced, Store, StoreError};
use crate::text::{decimal_text, i32_to_string};
use vstd::prelude::*;
use vstd::string::*;

verus! {

/// What happened to a listing between two scans.
#[derive(Debug)]
pub enum Event {
    /// The listing is known already, and its price is not the one recorded.
    PriceChanged { item: Item, old_price: i32, new_price: i32 },
    /// The listing is known, was not sold, and its block is now a sold marker.
    Sold { item: Item },
    /// The listing was not known.
    NewListing { item: Item },
    /// The listing is known, and the page no longer has it.
    Removed { item: Item },
}

/// What an `Event` holds.
pub enum EventView {
    PriceChanged { item: ItemView, old_price: i32, new_price: i32 },
    Sold { item: ItemView },
    NewListing { item: ItemView },
    Removed { item: ItemView },
}

impl EventView {
    /// The listing that the event is about.
    pub open spec fn item(self) -> ItemView {
        match self {
            EventView::PriceChanged { item, old_price, new_price } => item,
            EventView::Sold { item } => item,
            EventView::NewListing { item } => item,
            EventView::Removed { item } => item,
        }
    }
}

impl EventView {
    /// The title of the notification that tells the event: the listing by
    /// name and kind, and what happened to it.
    pub open spec fn title(self) -> Seq<char> {
        match self {
            EventView::PriceChanged { item, old_price, new_price } => item.display()
                + " の価格が変更されました"@,
            EventView::Sold { item } => item.display() + " が売約済みになりました"@,
            EventView::NewListing { item } => item.display() + " が新たに追加されました"@,
            EventView::Removed { item } => item.display() + " が削除されました"@,
        }
    }

    /// The body of the notification that tells the event: a changed price
    /// is told with the price before and the price now.
    pub open spec fn body(self) -> Option<Seq<char>> {
        match self {
            EventView::PriceChanged { item, old_price, new_price } => Some(
                decimal_text(old_price as int) + " 円から "@ + decimal_text(new_price as int)
                    + " 円になりました。"@,
            ),
            _ => None,
        }
    }
}

impl Event {
    /// The notification that tells the event.
    pub fn notification(&self) -> (r: Notification)
        ensures
            r@ == (NotificationView {
                title: Some(self@.title()),
                body: self@.body(),
                ..NotificationView::empty()
            }),
    {
        let mut builder = NotificationBuilder::new();
        match self {
            Event::PriceChanged { item, old_price, new_price } => {
                let mut title = item.to_string();
                title.append(" の価格が変更されました");
                let mut body = i32_to_string(*old_price);
                body.append(" 円から ");
                body.append(i32_to_string(*new_price).as_str());
                body.append(" 円になりました。");
                builder.title(title.as_str());
                builder.body(body.as_str());
            },
            Event::Sold { item } => {
                let mut title = item.to_string();
                title.append(" が売約済みになりました");
                builder.title(title.as_str());
            },
            Event::NewListing { item } => {
                let mut title = item.to_string();
                title.append(" が新たに追加されました");
                builder.title(title.as_str());
            },
            Event::Removed { item } => {
                let mut title = item.to_string();
                title.append(" が削除されました");
                builder.title(title.as_str());
            },
        }
        builder.build()
    }
}

impl View for Event {
    type V = EventView;

    open spec fn view(&self) -> EventView {
        match self {
            Event::PriceChanged { item, old_price, new_price } => EventView::PriceChanged {
                item: item@,
                old_price: *old_price,
                new_price: *new_price,
            },
            Event::Sold { item } => EventView::Sold { item: item@ },
            Event::NewListing { item } => EventView::NewListing { item: item@ },
            Event::Removed { item } => EventView::Removed { item: item@ },
        }
    }
}

impl DeepView for Event {
    type V = EventView;

    open spec fn deep_view(&self) -> EventView {
        self@
    }
}

/// A change to the record.
#[derive(Debug)]
pub enum Mutation {
    /// The listing with the order id of this item becomes this item.
    Update(Item),
    /// The listing `order_id` is marked as sold, at `price`.
    MarkSold { order_id: i32, price: i32 },
    /// These listings are inserted, all in one operation.
    InsertBatch(Vec<Item>),
    /// The listing with this order id is deleted.
    Delete(i32),
}

/// What a `Mutation` holds.
pub enum MutationView {
    Update(ItemView),
    MarkSold { order_id: i32, price: i32 },
    InsertBatch(Seq<ItemView>),
    Delete(i32),
}

impl View for Mutation {
    type V = MutationView;

    open spec fn view(&self) -> MutationView {
        match self {
            Mutation::Update(item) => MutationView::Update(item@),
            Mutation::MarkSold { order_id, price } => MutationView::MarkSold {
                order_id: *order_id,
                price: *price,
            },
            Mutation::InsertBatch(batch) => MutationView::InsertBatch(batch.deep_view()),
            Mutation::Delete(order_id) => MutationView::Delete(*order_id),
        }
    }
}

impl DeepView for Mutation {
    type V = MutationView;

    open spec fn deep_view(&self) -> MutationView {
        self@
    }
}

/// Why a run of the reconciler was given up.
#[derive(Clone, Copy, Debug, PartialEq, Eq, Structural)]
pub enum ReconcileError {
    /// An order id that the record listed has no listing: the record was
    /// changed from outside, or is corrupt.
    ItemNotFound,
    /// The record refused a change.
    Store(StoreError),
}

/// What one section of the scan calls for.
pub struct Decision {
    pub event: Option<EventView>,
    pub mutation: Option<MutationView>,
    pub staged: Option<ItemView>,
}

impl Decision {
    pub open spec fn nothing() -> Decision {
        Decision { event: None, mutation: None, staged: None }
    }
}

/// What the section `found` calls for, where `existing` is the listing that
/// the record holds for its order id.
///
/// A known listing that the page still shows is updated where any of its
/// fields is not as recorded, with an event where the price is among them.
/// A known listing whose block is now a sold marker is marked as sold at the
/// price of the block, with an event, unless it was marked so already. A
/// listing that is not known is staged for insertion, with an event. A sold
/// marker for a listing that is not known calls for nothing.
pub open spec fn decide(found: ItemSectionView, existing: Option<ItemView>) -> Decision {
    match existing {
        Some(known) => match found.item {
            Some(listing) => Decision {
                event: if listing.price != known.price {
                    Some(
                        EventView::PriceChanged {
                            item: listing,
                            old_price: known.price,
                            new_price: listing.price,
                        },
                    )
                } else {
                    None
                },
                mutation: if listing != known {
                    Some(MutationView::Update(listing))
                } else {
                    None
                },
                staged: None,
            },
            None => if !known.has_sold {
                Decision {
                    event: Some(EventView::Sold { item: known }),
                    mutation: Some(
                        MutationView::MarkSold { order_id: known.order_id, price: found.price },
                    ),
                    staged: None,
                }
            } else {
                Decision::nothing()
            },
        },
        None => match found.item {
            Some(listing) => Decision {
                event: Some(EventView::NewListing { item: listing }),
                mutation: None,
                staged: Some(listing),
            },
            None => Decision::nothing(),
        },
    }
}

/// The one element of an option, or none.
pub open spec fn opt_seq<T>(o: Option<T>) -> Seq<T> {
    match o {
        Some(x) => seq![x],
        None => Seq::empty(),
    }
}

/// The ids of `keys` that are not among `seen`, in the order of `keys`.
pub open spec fn unseen(keys: Seq<i32>, seen: Seq<i32>) -> Seq<i32>
    decreases keys.len(),
{
    if keys.len() == 0 {
        Seq::empty()
    } else if seen.contains(keys.last()) {
        unseen(keys.drop_last(), seen)
    } else {
        unseen(keys.drop_last(), seen).push(keys.last())
    }
}

/// What the reconciler has gathered so far.
pub struct ReconcilerView {
    /// The order ids of the sections read, in scan order.
    pub seen: Seq<i32>,
    /// The new listings, which are inserted in one batch behind the scan.
    pub staged: Seq<ItemView>,
    /// The events so far.
    pub events: Seq<EventView>,
}

impl ReconcilerView {
    pub open spec fn empty() -> ReconcilerView {
        ReconcilerView { seen: Seq::empty(), staged: Seq::empty(), events: Seq::empty() }
    }

    /// What is gathered once the section `found` is read.
    pub open spec fn after_section(
        self,
        found: ItemSectionView,
        existing: Option<ItemView>,
    ) -> ReconcilerView {
        ReconcilerView {
            seen: self.seen.push(found.order_id),
            staged: self.staged + opt_seq(decide(found, existing).staged),
            events: self.events + opt_seq(decide(found, existing).event),
        }
    }
}

/// The decisions of one run of the reconciler. It reads no record and
/// changes none: whoever drives it looks each listing up, hands it in, and
/// carries out the mutation that comes back.
#[derive(Debug)]
pub struct Reconciler {
    seen: Vec<i32>,
    staged: Vec<Item>,
    events: Vec<Event>,
}

impl View for Reconciler {
    type V = ReconcilerView;

    closed spec fn view(&self) -> ReconcilerView {
        ReconcilerView {
            seen: self.seen@,
            staged: self.staged.deep_view(),
            events: self.events.deep_view(),
        }
    }
}

fn contains(ids: &Vec<i32>, id: i32) -> (r: bool)
    ensures
        r == ids@.contains(id),
{
    let mut i: usize = 0;
    while i < ids.len()
        invariant
            i <= ids.len(),
            forall|k: int| 0 <= k < i ==> ids@[k] != id,
        decreases ids.len() - i,
    {
        if ids[i] == id {
            return true;
        }
        i = i + 1;
    }
    false
}

impl Reconciler {
    /// A reconciler that has read nothing.
    pub fn new() -> (r: Reconciler)
        ensures
            r@ == ReconcilerView::empty(),
    {
        let r = Reconciler { seen: Vec::new(), staged: Vec::new(), events: Vec::new() };
        assert(r.staged.deep_view() =~= Seq::<ItemView>::empty());
        assert(r.events.deep_view() =~= Seq::<EventView>::empty());
        r
    }

    /// Reads one section of the scan. `existing` is the listing that the
    /// record holds for the order id of `found`. What comes back is the
    /// change to make to the record now, if there is one.
    pub fn section(&mut self, found: &ItemSection, existing: Option<&Item>) -> (r: Option<
        Mutation,
    >)
        ensures
            final(self)@ == old(self)@.after_section(found@, existing.deep_view()),
            r.deep_view() == decide(found@, existing.deep_view()).mutation,
    {
        let ghost d = decide(found@, existing.deep_view());
        self.seen.push(found.order_id);
        match existing {
            Some(known) => match &found.item {
                Some(listing) => {
                    if listing.price != known.price {
                        let event = Event::PriceChanged {
                            item: listing.clone(),
                            old_price: known.price,
                            new_price: listing.price,
                        };
                        let ghost events = self.events.deep_view();
                        self.events.push(event);
                        assert(self.events.deep_view() =~= events + opt_seq(d.event));
                    }
                    if !listing.same_as(known) {
                        Some(Mutation::Update(listing.clone()))
                    } else {
                        None
                    }
                },
                None => {
                    if !known.has_sold {
                        let ghost events = self.events.deep_view();
                        self.events.push(Event::Sold { item: known.clone() });
                        assert(self.events.deep_view() =~= events + opt_seq(d.event));
                        Some(Mutation::MarkSold { order_id: known.order_id, price: found.price })
                    } else {
                        None
                    }
                },
            },
            None => match &found.item {
                Some(listing) => {
                    let ghost events = self.events.deep_view();
                    let ghost staged = self.staged.deep_view();
                    self.events.push(Event::NewListing { item: listing.clone() });
                    self.staged.push(listing.clone());
                    assert(self.events.deep_view() =~= events + opt_seq(d.event));
                    assert(self.staged.deep_view() =~= staged + opt_seq(d.staged));
                    None
                },
                None => None,
            },
        }
    }

    /// Ends the scan: the new listings, if there are any, are handed out to
    /// be inserted in one batch, and are staged no longer.
    pub fn take_staged(&mut self) -> (r: Option<Mutation>)
        ensures
            final(self)@ == (ReconcilerView { staged: Seq::empty(), ..old(self)@ }),
            r.deep_view() == (if old(self)@.staged.len() > 0 {
                Some(MutationView::InsertBatch(old(self)@.staged))
            } else {
                None
            }),
    {
        if self.staged.len() > 0 {
            let mut batch: Vec<Item> = Vec::new();
            let ghost staged = self.staged.deep_view();
            std::mem::swap(&mut self.staged, &mut batch);
            assert(self.staged.deep_view() =~= Seq::<ItemView>::empty());
            Some(Mutation::InsertBatch(batch))
        } else {
            assert(self.staged.deep_view() =~= Seq::<ItemView>::empty());
            None
        }
    }

    /// The order ids to delete: those of `keys`, the ids that the record
    /// lists, which no section of the scan had; in the order of `keys`.
    pub fn unseen(&self, keys: &[i32]) -> (r: Vec<i32>)
        ensures
            r@ == unseen(keys@, self@.seen),
    {
        let mut r: Vec<i32> = Vec::new();
        let mut i: usize = 0;
        while i < keys.len()
            invariant
                i <= keys.len(),
                r@ == unseen(keys@.take(i as int), self@.seen),
            decreases keys.len() - i,
        {
            proof {
                assert(keys@.take(i + 1).drop_last() =~= keys@.take(i as int));
            }
            if !contains(&self.seen, keys[i]) {
                r.push(keys[i]);
            }
            i = i + 1;
        }
        assert(keys@.take(keys@.len() as int) =~= keys@);
        r
    }

    /// Settles the deletion of `order_id`. `existing` is the listing that
    /// the record holds for it: the record listed the id, so a record that
    /// now holds no listing for it is inconsistent, and the run is given up.
    pub fn removal(&mut self, order_id: i32, existing: Option<&Item>) -> (r: Result<
        Mutation,
        ReconcileError,
    >)
        ensures
            match existing {
                Some(item) => {
                    &&& r matches Ok(m)
                    &&& m@ == MutationView::Delete(order_id)
                    &&& final(self)@ == (ReconcilerView {
                        events: old(self)@.events.push(EventView::Removed { item: item@ }),
                        ..old(self)@
                    })
                },
                None => r == Err::<Mutation, ReconcileError>(ReconcileError::ItemNotFound)
                    && final(self)@ == old(self)@,
            },
    {
        match existing {
            Some(item) => {
                let ghost events = self.events.deep_view();
                self.events.push(Event::Removed { item: item.clone() });
                assert(self.events.deep_view() =~= events.push(
                    EventView::Removed { item: item@ },
                ));
                Ok(Mutation::Delete(order_id))
            },
            None => Err(ReconcileError::ItemNotFound),
        }
    }

    /// Ends the run: the events, in the order in which they arose.
    pub fn into_events(self) -> (r: Vec<Event>)
        ensures
            r.deep_view() == self@.events,
    {
        self.events
    }
}

/// Where a run of the reconciler stands: the record, what the reconciler
/// has gathered, and the changes made to the record so far.
pub struct Progress {
    pub store: Seq<ItemView>,
    pub state: ReconcilerView,
    pub mutations: Seq<MutationView>,
}

/// The record `listings` with a change to one listing made. A batch is not
/// such a change: see `inserted`.
pub open spec fn changed(listings: Seq<ItemView>, mutation: Option<MutationView>) -> Seq<
    ItemView,
> {
    match mutation {
        Some(MutationView::Update(item)) => replaced(listings, item),
        Some(MutationView::MarkSold { order_id, price }) => marked_sold(listings, order_id, price),
        Some(MutationView::Delete(order_id)) => removed(listings, order_id),
        _ => listings,
    }
}

/// Where the run stands once `sections` are read, in their order, against
/// the record `store`. Each section is decided on the listing that the
/// record holds when its turn comes, and its change is made at once.
pub open spec fn after_sections(sections: Seq<ItemSectionView>, store: Seq<ItemView>) -> Progress
    decreases sections.len(),
{
    if sections.len() == 0 {
        Progress { store, state: ReconcilerView::empty(), mutations: Seq::empty() }
    } else {
        let before = after_sections(sections.drop_last(), store);
        let found = sections.last();
        let existing = lookup(before.store, found.order_id);
        Progress {
            store: changed(before.store, decide(found, existing).mutation),
            state: before.state.after_section(found, existing),
            mutations: before.mutations + opt_seq(decide(found, existing).mutation),
        }
    }
}

/// Where the run stands once the new listings are inserted. Without new
/// listings nothing is done.
pub open spec fn after_insert(p: Progress) -> Result<Progress, ReconcileError> {
    if p.state.staged.len() > 0 {
        match inserted(p.store, p.state.staged) {
            Ok(store) => Ok(
                Progress {
                    store,
                    state: ReconcilerView { staged: Seq::empty(), ..p.state },
                    mutations: p.mutations.push(MutationView::InsertBatch(p.state.staged)),
                },
            ),
            Err(e) => Err(ReconcileError::Store(e)),
        }
    } else {
        Ok(p)
    }
}

/// Where the run stands once the listings `ids` are deleted, in their order,
/// each with its event.
pub open spec fn after_removals(ids: Seq<i32>, p: Progress) -> Result<Progress, ReconcileError>
    decreases ids.len(),
{
    if ids.len() == 0 {
        Ok(p)
    } else {
        match after_removals(ids.drop_last(), p) {
            Ok(before) => match lookup(before.store, ids.last()) {
                Some(item) => Ok(
                    Progress {
                        store: removed(before.store, ids.last()),
                        state: ReconcilerView {
                            events: before.state.events.push(EventView::Removed { item }),
                            ..before.state
                        },
                        mutations: before.mutations.push(MutationView::Delete(ids.last())),
                    },
                ),
                None => Err(ReconcileError::ItemNotFound),
            },
            Err(e) => Err(e),
        }
    }
}

/// One run of the reconciler: the sections are read in scan order, the new
/// listings are inserted in one batch, and the listings of the record that
/// no section had are deleted, in the order of the record.
pub open spec fn reconciled(sections: Seq<ItemSectionView>, store: Seq<ItemView>) -> Result<
    Progress,
    ReconcileError,
> {
    match after_insert(after_sections(sections, store)) {
        Ok(p) => after_removals(unseen(keys_of(p.store), p.state.seen), p),
        Err(e) => Err(e),
    }
}

/// The record `listings` with `mutation` made, or the reason why the record
/// refuses it.
pub open spec fn applied(listings: Seq<ItemView>, mutation: MutationView) -> Result<
    Seq<ItemView>,
    StoreError,
> {
    match mutation {
        MutationView::InsertBatch(batch) => inserted(listings, batch),
        _ => Ok(changed(listings, Some(mutation))),
    }
}

/// Makes one change to the record. A change that the record refuses leaves
/// it as it was.
pub fn apply(store: &mut Store, mutation: &Mutation) -> (r: Result<(), StoreError>)
    requires
        old(store).well_formed(),
    ensures
        final(store).well_formed(),
        match applied(old(store)@, mutation@) {
            Ok(listings) => r is Ok && final(store)@ == listings,
            Err(e) => r == Err::<(), StoreError>(e) && final(store)@ == old(store)@,
        },
{
    match mutation {
        Mutation::Update(item) => {
            store.update(item.clone());
            Ok(())
        },
        Mutation::MarkSold { order_id, price } => {
            store.mark_sold(*order_id, *price);
            Ok(())
        },
        Mutation::InsertBatch(batch) => store.insert_batch(batch.as_slice()),
        Mutation::Delete(order_id) => {
            store.delete(*order_id);
            Ok(())
        },
    }
}

/// What a run of the reconciler did: the events for dispatch, and the
/// changes that it made to the record, both in the order in which they
/// arose.
#[derive(Debug)]
pub struct Reconciliation {
    pub events: Vec<Event>,
    pub mutations: Vec<Mutation>,
}

/// Reconciles the record with a scan of the page: reads the sections in
/// scan order, inserts the new listings in one batch, and deletes the
/// listings that the scan did not have.
///
/// The run is the one that `reconciled` defines. It is given up only where
/// the record refuses the batch, which it does where two sections stage a
/// new listing under one order id; the record is then left as the sections
/// made it, without a listing inserted or deleted. So the run goes through
/// wherever no two sections share an order id and each listing has the
/// order id of its section. A listing that the record lists is always
/// found, so `ItemNotFound` does not come of a record in memory.
pub fn reconcile(sections: &[ItemSection], store: &mut Store) -> (r: Result<
    Reconciliation,
    ReconcileError,
>)
    requires
        old(store).well_formed(),
    ensures
        final(store).well_formed(),
        match reconciled(sections.deep_view(), old(store)@) {
            Ok(p) => {
                &&& r matches Ok(done)
                &&& done.events.deep_view() == p.state.events
                &&& done.mutations.deep_view() == p.mutations
                &&& final(store)@ == p.store
            },
            Err(e) => r matches Err(err) && err == e,
        },
        r matches Err(e) ==> e is Store && final(store)@ == after_sections(
            sections.deep_view(),
            old(store)@,
        ).store,
        keyed(sections.deep_view()) && distinct_ids(sections.deep_view()) ==> r is Ok,
{
    let ghost all = sections.deep_view();
    let ghost start = store@;
    proof {
        if keyed(all) && distinct_ids(all) {
            lemma_run_succeeds(all, start);
        }
    }
    let mut reconciler = Reconciler::new();
    let mut mutations: Vec<Mutation> = Vec::new();
    let mut i: usize = 0;
    assert(mutations.deep_view() =~= Seq::<MutationView>::empty());
    while i < sections.len()
        invariant
            i <= sections.len(),
            all == sections.deep_view(),
            store.well_formed(),
            after_sections(all.take(i as int), start) == (Progress {
                store: store@,
                state: reconciler@,
                mutations: mutations.deep_view(),
            }),
        decreases sections.len() - i,
    {
        proof {
            assert(all.take(i + 1).drop_last() =~= all.take(i as int));
        }
        let found = &sections[i];
        let mutation = reconciler.section(found, store.get(found.order_id));
        let ghost made = mutations.deep_view();
        if let Some(m) = mutation {
            let _ = apply(store, &m);
            mutations.push(m);
            assert(mutations.deep_view() =~= made + opt_seq(Some(m@)));
        }
        i = i + 1;
    }
    assert(all.take(all.len() as int) =~= all);
    if let Some(m) = reconciler.take_staged() {
        if let Err(e) = apply(store, &m) {
            return Err(ReconcileError::Store(e));
        }
        let ghost made = mutations.deep_view();
        mutations.push(m);
        assert(mutations.deep_view() =~= made.push(m@));
    }
    let ghost settled = Progress {
        store: store@,
        state: reconciler@,
        mutations: mutations.deep_view(),
    };
    let keys = store.keys();
    let doomed = reconciler.unseen(keys.as_slice());
    proof {
        lemma_sweep(settled);
    }
    let mut j: usize = 0;
    while j < doomed.len()
        invariant
            j <= doomed.len(),
            store.well_formed(),
            start == old(store)@,
            all == sections.deep_view(),
            after_insert(after_sections(all, start)) == Ok::<Progress, ReconcileError>(settled),
            doomed@ == unseen(keys_of(settled.store), settled.state.seen),
            after_removals(doomed@, settled) is Ok,
            after_removals(doomed@.take(j as int), settled) == Ok::<Progress, ReconcileError>(
                Progress { store: store@, state: reconciler@, mutations: mutations.deep_view() },
            ),
        decreases doomed.len() - j,
    {
        proof {
            assert(doomed@.take(j + 1).drop_last() =~= doomed@.take(j as int));
        }
        let id = doomed[j];
        match reconciler.removal(id, store.get(id)) {
            Ok(m) => {
                store.delete(id);
                let ghost made = mutations.deep_view();
                mutations.push(m);
                assert(mutations.deep_view() =~= made.push(m@));
            },
            Err(e) => {
                // Never taken: the record lists the id, so it holds the listing.
                proof {
                    lemma_removals_stop(doomed@, settled, j + 1);
                }
                return Err(e);
            },
        }
        j = j + 1;
    }
    assert(doomed@.take(doomed@.len() as int) =~= doomed@);
    Ok(Reconciliation { events: reconciler.into_events(), mutations })
}

/// Once a deletion has failed, the run has failed.
pub proof fn lemma_removals_stop(ids: Seq<i32>, p: Progress, n: int)
    requires
        0 <= n <= ids.len(),
        after_removals(ids.take(n), p) is Err,
    ensures
        after_removals(ids, p) == after_removals(ids.take(n), p),
    decreases ids.len() - n,
{
    if n < ids.len() {
        assert(ids.take(n + 1).drop_last() =~= ids.take(n));
        lemma_removals_stop(ids, p, n + 1);
    } else {
        assert(ids.take(n) =~= ids);
    }
}

} // verus!
