//! The item cache: the single owner of indicator item state, keyed by item id.
//!
//! Every mutation records the change events it causes, in order, in an outbox that the
//! owner drains with [`ItemCache::take_events`] and broadcasts to its subscribers.

use vstd::prelude::*;
use crate::item::{CacheEvent, CacheEventView, ItemStatus, TrayItem, TrayItemView};
use crate::text::{opt_bytes_view, opt_view, str_eq};

verus! {

/// Store of discovered indicator items with change notification.
pub struct ItemCache {
    items: Vec<TrayItem>,
    events: Vec<CacheEvent>,
    model: Ghost<Map<Seq<char>, TrayItemView>>,
}

/// The views of a sequence of events.
pub open spec fn event_views(s: Seq<CacheEvent>) -> Seq<CacheEventView> {
    s.map_values(|e: CacheEvent| e@)
}

/// The removal events for a sequence of removed items, in order.
pub open spec fn removed_events(s: Seq<TrayItem>) -> Seq<CacheEventView> {
    s.map_values(|t: TrayItem| CacheEventView::Removed(t.id@))
}

/// A cache mutation, described by its effect on the abstract map.
pub enum CacheOp {
    Upsert(TrayItemView),
    Remove(Seq<char>),
}

/// The abstract map after one operation: what `upsert` and `remove` ensure.
pub open spec fn apply_op(m: Map<Seq<char>, TrayItemView>, op: CacheOp) -> Map<Seq<char>, TrayItemView> {
    match op {
        CacheOp::Upsert(t) => m.insert(t.id, t),
        CacheOp::Remove(id) => m.remove(id),
    }
}

/// The abstract map after a sequence of operations, applied in order.
pub open spec fn replay(m: Map<Seq<char>, TrayItemView>, ops: Seq<CacheOp>) -> Map<Seq<char>, TrayItemView>
    decreases ops.len(),
{
    if ops.len() == 0 {
        m
    } else {
        apply_op(replay(m, ops.drop_last()), ops.last())
    }
}

/// One more operation extends a replay by one step: so a cache that starts empty and goes
/// through `upsert` and `remove` calls, each of which ensures one `apply_op` step, holds
/// `replay(Map::empty(), ops)` of the operations made, and `lemma_state_convergence` says
/// what that map is.
pub proof fn lemma_replay_push(m: Map<Seq<char>, TrayItemView>, ops: Seq<CacheOp>, op: CacheOp)
    ensures
        replay(m, ops.push(op)) == apply_op(replay(m, ops), op),
{
    assert(ops.push(op).drop_last() =~= ops);
}

/// Whether the operation names the id `k`.
pub open spec fn touches(op: CacheOp, k: Seq<char>) -> bool {
    match op {
        CacheOp::Upsert(t) => t.id == k,
        CacheOp::Remove(id) => id == k,
    }
}

/// Whether operation `i` upserts id `k` and no later operation upserts or removes `k`.
pub open spec fn last_upsert_at(ops: Seq<CacheOp>, k: Seq<char>, i: int) -> bool {
    &&& 0 <= i < ops.len()
    &&& ops[i] matches CacheOp::Upsert(t) && t.id == k
    &&& forall|j: int| i < j < ops.len() ==> !touches(#[trigger] ops[j], k)
}

/// State convergence: starting from an empty cache, after any sequence of upserts and
/// removes the cache holds exactly the ids whose last operation was an upsert, each with
/// the item of that upsert.
pub proof fn lemma_state_convergence(ops: Seq<CacheOp>)
    ensures
        forall|k: Seq<char>| #[trigger] replay(Map::empty(), ops).contains_key(k)
            <==> exists|i: int| last_upsert_at(ops, k, i),
        forall|k: Seq<char>, i: int| #[trigger] last_upsert_at(ops, k, i)
            ==> replay(Map::empty(), ops)[k] == ops[i]->Upsert_0,
    decreases ops.len(),
{
    if ops.len() > 0 {
        let prev = ops.drop_last();
        let n = ops.len() - 1;
        lemma_state_convergence(prev);
        assert forall|k: Seq<char>, i: int| 0 <= i < n && #[trigger] last_upsert_at(ops, k, i)
            implies last_upsert_at(prev, k, i) by {
            assert forall|j: int| i < j < prev.len() implies !touches(#[trigger] prev[j], k) by {
                assert(prev[j] == ops[j]);
                assert(!touches(ops[j], k));
            }
        }
        assert forall|k: Seq<char>, i: int| last_upsert_at(prev, k, i) && !touches(ops[n], k)
            implies #[trigger] last_upsert_at(ops, k, i) by {
            assert forall|j: int| i < j < ops.len() implies !touches(#[trigger] ops[j], k) by {
                if j < n {
                    assert(prev[j] == ops[j]);
                }
            }
        }
        assert forall|k: Seq<char>, i: int| #[trigger] last_upsert_at(ops, k, i) && i < n implies !touches(ops[n], k) by {}
        assert forall|k: Seq<char>| #[trigger] replay(Map::empty(), ops).contains_key(k)
            <==> exists|i: int| last_upsert_at(ops, k, i) by {
            if touches(ops[n], k) {
                match ops[n] {
                    CacheOp::Upsert(t) => {
                        assert(last_upsert_at(ops, k, n));
                    },
                    CacheOp::Remove(id) => {
                        if exists|i: int| last_upsert_at(ops, k, i) {
                            let i = choose|i: int| last_upsert_at(ops, k, i);
                            assert(i != n);
                        }
                    },
                }
            } else {
                if replay(Map::empty(), ops).contains_key(k) {
                    let i = choose|i: int| last_upsert_at(prev, k, i);
                    assert(last_upsert_at(ops, k, i));
                }
                if exists|i: int| last_upsert_at(ops, k, i) {
                    let i = choose|i: int| last_upsert_at(ops, k, i);
                    assert(i != n);
                    assert(last_upsert_at(prev, k, i));
                }
            }
        }
        assert forall|k: Seq<char>, i: int| #[trigger] last_upsert_at(ops, k, i)
            implies replay(Map::empty(), ops)[k] == ops[i]->Upsert_0 by {
            if i < n {
                assert(last_upsert_at(prev, k, i));
                assert(prev[i] == ops[i]);
            }
        }
    }
}

/// Whether some item of the listing has id `k`.
pub open spec fn lists_id(listing: Seq<TrayItem>, k: Seq<char>) -> bool {
    exists|a: int| 0 <= a < listing.len() && #[trigger] listing[a].id@ == k
}

/// State convergence as seen through `get_all`: when a cache that started empty holds the
/// replay of `ops` (which every sequence of `upsert` and `remove` calls gives, by their
/// `apply_op` clauses and `lemma_replay_push`), a listing with `get_all`'s guarantees holds
/// exactly the ids whose last operation was an upsert, each with that upsert's item.
pub proof fn lemma_listing_converges(ops: Seq<CacheOp>, m: Map<Seq<char>, TrayItemView>, listing: Seq<TrayItem>)
    requires
        m == replay(Map::empty(), ops),
        forall|a: int| 0 <= a < listing.len() ==> #[trigger] m.contains_key(listing[a].id@)
            && m[listing[a].id@] == listing[a]@,
        forall|k: Seq<char>| #[trigger] m.contains_key(k)
            ==> exists|a: int| 0 <= a < listing.len() && #[trigger] listing[a].id@ == k,
    ensures
        forall|k: Seq<char>| #[trigger] lists_id(listing, k) <==> exists|i: int| last_upsert_at(ops, k, i),
        forall|a: int, i: int| 0 <= a < listing.len() && #[trigger] last_upsert_at(ops, #[trigger] listing[a].id@, i)
            ==> listing[a]@ == ops[i]->Upsert_0,
{
    lemma_state_convergence(ops);
    assert forall|k: Seq<char>| #[trigger] lists_id(listing, k)
        implies exists|i: int| last_upsert_at(ops, k, i) by {
        let a = choose|a: int| 0 <= a < listing.len() && #[trigger] listing[a].id@ == k;
        assert(m.contains_key(listing[a].id@));
    }
    assert forall|k: Seq<char>| (exists|i: int| last_upsert_at(ops, k, i))
        implies #[trigger] lists_id(listing, k) by {
        assert(m.contains_key(k));
    }
    assert forall|a: int, i: int| 0 <= a < listing.len() && #[trigger] last_upsert_at(ops, #[trigger] listing[a].id@, i)
        implies listing[a]@ == ops[i]->Upsert_0 by {
        assert(m.contains_key(listing[a].id@));
    }
}

impl View for ItemCache {
    type V = Map<Seq<char>, TrayItemView>;

    closed spec fn view(&self) -> Map<Seq<char>, TrayItemView> {
        self.model@
    }
}

impl ItemCache {
    /// The change events recorded and not yet taken, oldest first.
    pub closed spec fn pending(&self) -> Seq<CacheEventView> {
        event_views(self.events@)
    }

    /// The internal invariant: one stored item per id, matching the abstract map.
    pub closed spec fn wf(&self) -> bool {
        &&& self.model@.dom().finite()
        &&& self.model@.dom().len() == self.items@.len()
        &&& forall|i: int, j: int|
            0 <= i < self.items@.len() && 0 <= j < self.items@.len() && i != j
                ==> self.items@[i].id@ != self.items@[j].id@
        &&& forall|i: int|
            0 <= i < self.items@.len() ==> #[trigger] self.model@.contains_key(self.items@[i].id@)
                && self.model@[self.items@[i].id@] == self.items@[i]@
        &&& forall|k: Seq<char>|
            #[trigger] self.model@.contains_key(k) ==> exists|i: int|
                0 <= i < self.items@.len() && #[trigger] self.items@[i].id@ == k
    }

    /// Create an empty cache.
    pub fn new() -> (r: ItemCache)
        ensures
            r.wf(),
            r@ == Map::<Seq<char>, TrayItemView>::empty(),
            r.pending() == Seq::<CacheEventView>::empty(),
    {
        let r = ItemCache { items: Vec::new(), events: Vec::new(), model: Ghost(Map::empty()) };
        assert(r.pending() =~= Seq::<CacheEventView>::empty());
        r
    }

    /// The position of the item with the given id, if any.
    fn find(&self, id: &str) -> (r: Option<usize>)
        requires
            self.wf(),
        ensures
            match r {
                Some(i) => i < self.items@.len() && self.items@[i as int].id@ == id@,
                None => !self@.contains_key(id@),
            },
    {
        let mut i: usize = 0;
        while i < self.items.len()
            invariant
                self.wf(),
                i <= self.items@.len(),
                forall|j: int| 0 <= j < i ==> self.items@[j].id@ != id@,
            decreases self.items@.len() - i,
        {
            if str_eq(self.items[i].id.as_str(), id) {
                return Some(i);
            }
            i = i + 1;
        }
        proof {
            if self@.contains_key(id@) {
                let w = choose|w: int| 0 <= w < self.items@.len() && #[trigger] self.items@[w].id@ == id@;
                assert(self.items@[w].id@ != id@);
            }
        }
        None
    }

    /// Record an event in the outbox.
    fn record(&mut self, e: CacheEvent)
        ensures
            final(self).items == old(self).items,
            final(self).model == old(self).model,
            final(self).pending() == old(self).pending().push(e@),
    {
        self.events.push(e);
        assert(event_views(self.events@) =~= event_views(old(self).events@).push(e@));
    }

    /// Insert an item or replace the one with the same id; records `ItemAdded` when the id
    /// was absent and `ItemUpdated` otherwise.
    pub fn upsert(&mut self, item: TrayItem)
        requires
            old(self).wf(),
            old(self)@.dom().len() < usize::MAX,
        ensures
            final(self).wf(),
            final(self)@ == old(self)@.insert(item.id@, item@),
            final(self)@ == apply_op(old(self)@, CacheOp::Upsert(item@)),
            final(self).pending() == old(self).pending().push(
                if old(self)@.contains_key(item.id@) {
                    CacheEventView::Updated(item.id@)
                } else {
                    CacheEventView::Added(item.id@)
                },
            ),
    {
        match self.find(item.id.as_str()) {
            Some(i) => {
                self.replace_at(i, item);
            },
            None => {
                let id = item.id.clone();
                let ghost k = item.id@;
                let ghost v = item@;
                self.items.push(item);
                self.model = Ghost(self.model@.insert(k, v));
                proof {
                    let n = old(self).items@.len() as int;
                    assert(self.items@[n].id@ == k);
                    assert forall|kk: Seq<char>| #[trigger] self.model@.contains_key(kk)
                        implies exists|j: int| 0 <= j < self.items@.len() && #[trigger] self.items@[j].id@ == kk by {
                        if kk != k {
                            assert(old(self).model@.contains_key(kk));
                            let w = choose|w: int| 0 <= w < old(self).items@.len() && #[trigger] old(self).items@[w].id@ == kk;
                            assert(self.items@[w].id@ == kk);
                        } else {
                            assert(self.items@[n].id@ == kk);
                        }
                    }
                    assert forall|a: int| 0 <= a < n implies #[trigger] self.items@[a].id@ != k by {
                        assert(old(self).model@.contains_key(old(self).items@[a].id@));
                    }
                }
                self.record(CacheEvent::ItemAdded(id));
            },
        }
    }

    /// Replace the item at position `i` by one with the same id; records `ItemUpdated`.
    fn replace_at(&mut self, i: usize, item: TrayItem)
        requires
            old(self).wf(),
            i < old(self).items@.len(),
            old(self).items@[i as int].id@ == item.id@,
        ensures
            final(self).wf(),
            old(self)@.contains_key(item.id@),
            final(self)@ == old(self)@.insert(item.id@, item@),
            final(self).pending() == old(self).pending().push(CacheEventView::Updated(item.id@)),
    {
        let id = item.id.clone();
        let ghost k = item.id@;
        let ghost v = item@;
        let ghost old_items = self.items@;
        let ghost gi = item;
        self.items.set(i, item);
        self.model = Ghost(self.model@.insert(k, v));
        proof {
            assert(old(self).model@.contains_key(old_items[i as int].id@));
            assert(self.model@.dom() =~= old(self).model@.dom());
            assert forall|a: int| 0 <= a < self.items@.len() && a != i implies #[trigger] self.items@[a] == old_items[a] by {}
            assert forall|a: int, b: int|
                0 <= a < self.items@.len() && 0 <= b < self.items@.len() && a != b
                    implies self.items@[a].id@ != self.items@[b].id@ by {
                assert(self.items@[a].id@ == old_items[a].id@);
                assert(self.items@[b].id@ == old_items[b].id@);
            }
            assert forall|a: int| 0 <= a < self.items@.len() implies #[trigger] self.model@.contains_key(self.items@[a].id@)
                && self.model@[self.items@[a].id@] == self.items@[a]@ by {
                if a != i {
                    assert(self.items@[a] == old_items[a]);
                    assert(old_items[a].id@ != old_items[i as int].id@);
                    assert(old(self).model@.contains_key(old(self).items@[a].id@));
                } else {
                    assert(self.items@[a] == gi);
                }
            }
            assert forall|kk: Seq<char>| #[trigger] self.model@.contains_key(kk)
                implies exists|j: int| 0 <= j < self.items@.len() && #[trigger] self.items@[j].id@ == kk by {
                assert(old(self).model@.contains_key(kk));
                let w = choose|w: int| 0 <= w < old_items.len() && #[trigger] old_items[w].id@ == kk;
                assert(self.items@[w].id@ == kk);
            }
        }
        self.record(CacheEvent::ItemUpdated(id));
    }

    /// Take the item at position `i` out of the store and the map.
    fn take_at(&mut self, i: usize) -> (r: TrayItem)
        requires
            old(self).wf(),
            i < old(self).items@.len(),
        ensures
            final(self).wf(),
            r@ == old(self).items@[i as int]@,
            old(self)@.contains_key(r.id@),
            old(self)@[r.id@] == r@,
            final(self)@ == old(self)@.remove(r.id@),
            final(self).items@ == old(self).items@.remove(i as int),
            final(self).events == old(self).events,
    {
        let ghost old_items = self.items@;
        let r = self.items.remove(i);
        let ghost k = r.id@;
        self.model = Ghost(self.model@.remove(k));
        proof {
            assert(old(self).model@.contains_key(k));
            assert forall|a: int, b: int|
                0 <= a < self.items@.len() && 0 <= b < self.items@.len() && a != b
                    implies self.items@[a].id@ != self.items@[b].id@ by {
                let oa = if a < i { a } else { a + 1 };
                let ob = if b < i { b } else { b + 1 };
                assert(self.items@[a] == old_items[oa]);
                assert(self.items@[b] == old_items[ob]);
            }
            assert forall|a: int| 0 <= a < self.items@.len() implies #[trigger] self.model@.contains_key(self.items@[a].id@)
                && self.model@[self.items@[a].id@] == self.items@[a]@ by {
                let oa = if a < i { a } else { a + 1 };
                assert(self.items@[a] == old_items[oa]);
                assert(old_items[oa].id@ != old_items[i as int].id@);
                assert(old(self).model@.contains_key(old(self).items@[oa].id@));
                assert(old(self).model@[old_items[oa].id@] == old_items[oa]@);
                assert(self.model@ == old(self).model@.remove(k));
            }
            assert forall|kk: Seq<char>| #[trigger] self.model@.contains_key(kk)
                implies exists|j: int| 0 <= j < self.items@.len() && #[trigger] self.items@[j].id@ == kk by {
                assert(old(self).model@.contains_key(kk));
                let w = choose|w: int| 0 <= w < old_items.len() && #[trigger] old_items[w].id@ == kk;
                assert(w != i);
                let nw = if w < i { w } else { w - 1 };
                assert(self.items@[nw] == old_items[w]);
            }
        }
        r
    }

    /// Remove the item with the given id and return it; records `ItemRemoved` only when it
    /// was present.
    pub fn remove(&mut self, id: &str) -> (r: Option<TrayItem>)
        requires
            old(self).wf(),
        ensures
            final(self).wf(),
            final(self)@ == old(self)@.remove(id@),
            final(self)@ == apply_op(old(self)@, CacheOp::Remove(id@)),
            match r {
                Some(t) => {
                    &&& old(self)@.contains_key(id@)
                    &&& t@ == old(self)@[id@]
                    &&& final(self).pending() == old(self).pending().push(CacheEventView::Removed(id@))
                },
                None => {
                    &&& !old(self)@.contains_key(id@)
                    &&& final(self).pending() == old(self).pending()
                },
            },
    {
        match self.find(id) {
            Some(i) => {
                let t = self.take_at(i);
                let rid = t.id.clone();
                self.record(CacheEvent::ItemRemoved(rid));
                Some(t)
            },
            None => {
                assert(old(self)@.remove(id@) =~= old(self)@);
                None
            },
        }
    }

    /// Remove every item whose origin bus address equals `bus_name`, returning them;
    /// records one `ItemRemoved` per removed item, in the order returned.
    pub fn remove_by_bus_name(&mut self, bus_name: &str) -> (r: Vec<TrayItem>)
        requires
            old(self).wf(),
        ensures
            final(self).wf(),
            forall|k: Seq<char>| #[trigger] final(self)@.contains_key(k) <==>
                old(self)@.contains_key(k) && old(self)@[k].bus_name != bus_name@,
            forall|k: Seq<char>| #[trigger] final(self)@.contains_key(k) ==> final(self)@[k] == old(self)@[k],
            forall|a: int| 0 <= a < r@.len() ==> {
                &&& old(self)@.contains_key(#[trigger] r@[a].id@)
                &&& old(self)@[r@[a].id@] == r@[a]@
                &&& r@[a].bus_name@ == bus_name@
            },
            forall|a: int, b: int| 0 <= a < r@.len() && 0 <= b < r@.len() && a != b
                ==> r@[a].id@ != r@[b].id@,
            forall|k: Seq<char>| old(self)@.contains_key(k) && #[trigger] old(self)@[k].bus_name == bus_name@
                ==> exists|a: int| 0 <= a < r@.len() && #[trigger] r@[a].id@ == k,
            final(self).pending() == old(self).pending() + removed_events(r@),
    {
        let mut removed: Vec<TrayItem> = Vec::new();
        let mut i: usize = 0;
        while i < self.items.len()
            invariant
                self.wf(),
                i <= self.items@.len(),
                forall|j: int| 0 <= j < i ==> self.items@[j].bus_name@ != bus_name@,
                forall|k: Seq<char>| #[trigger] self@.contains_key(k) ==>
                    old(self)@.contains_key(k) && self@[k] == old(self)@[k],
                forall|k: Seq<char>| old(self)@.contains_key(k) && old(self)@[k].bus_name != bus_name@
                    ==> #[trigger] self@.contains_key(k),
                forall|a: int| 0 <= a < removed@.len() ==> {
                    &&& old(self)@.contains_key(#[trigger] removed@[a].id@)
                    &&& old(self)@[removed@[a].id@] == removed@[a]@
                    &&& removed@[a].bus_name@ == bus_name@
                    &&& !self@.contains_key(removed@[a].id@)
                },
                forall|a: int, b: int| 0 <= a < removed@.len() && 0 <= b < removed@.len() && a != b
                    ==> removed@[a].id@ != removed@[b].id@,
                forall|k: Seq<char>| old(self)@.contains_key(k) && !(#[trigger] self@.contains_key(k))
                    ==> exists|a: int| 0 <= a < removed@.len() && #[trigger] removed@[a].id@ == k,
                self.pending() == old(self).pending() + removed_events(removed@),
            decreases self.items@.len() - i,
        {
            if str_eq(self.items[i].bus_name.as_str(), bus_name) {
                let ghost before = self@;
                let ghost before_removed = removed@;
                let t = self.take_at(i);
                let rid = t.id.clone();
                self.record(CacheEvent::ItemRemoved(rid));
                removed.push(t);
                proof {
                    let n = before_removed.len() as int;
                    assert(removed@[n] == t);
                    assert(removed_events(removed@) =~= removed_events(before_removed).push(CacheEventView::Removed(t.id@)));
                    assert forall|a: int| 0 <= a < removed@.len() implies {
                        &&& old(self)@.contains_key(#[trigger] removed@[a].id@)
                        &&& old(self)@[removed@[a].id@] == removed@[a]@
                        &&& removed@[a].bus_name@ == bus_name@
                        &&& !self@.contains_key(removed@[a].id@)
                    } by {
                        if a < n {
                            assert(removed@[a] == before_removed[a]);
                        }
                    }
                    assert forall|a: int, b: int| 0 <= a < removed@.len() && 0 <= b < removed@.len() && a != b
                        implies removed@[a].id@ != removed@[b].id@ by {
                        if a < n && b < n {
                            assert(removed@[a] == before_removed[a]);
                            assert(removed@[b] == before_removed[b]);
                        } else if a < n {
                            assert(removed@[a] == before_removed[a]);
                            assert(!before.contains_key(before_removed[a].id@));
                        } else if b < n {
                            assert(removed@[b] == before_removed[b]);
                            assert(!before.contains_key(before_removed[b].id@));
                        }
                    }
                    assert forall|k: Seq<char>| old(self)@.contains_key(k) && !(#[trigger] self@.contains_key(k))
                        implies exists|a: int| 0 <= a < removed@.len() && #[trigger] removed@[a].id@ == k by {
                        if k == t.id@ {
                            assert(removed@[n].id@ == k);
                        } else {
                            assert(!before.contains_key(k));
                            let w = choose|a: int| 0 <= a < before_removed.len() && #[trigger] before_removed[a].id@ == k;
                            assert(removed@[w] == before_removed[w]);
                        }
                    }
                }
            } else {
                i = i + 1;
            }
        }
        proof {
            assert forall|k: Seq<char>| #[trigger] self@.contains_key(k) implies old(self)@[k].bus_name != bus_name@ by {
                let w = choose|w: int| 0 <= w < self.items@.len() && #[trigger] self.items@[w].id@ == k;
                assert(self.model@[self.items@[w].id@] == self.items@[w]@);
            }
            assert forall|k: Seq<char>| old(self)@.contains_key(k) && #[trigger] old(self)@[k].bus_name == bus_name@
                implies exists|a: int| 0 <= a < removed@.len() && #[trigger] removed@[a].id@ == k by {
                if self@.contains_key(k) {
                    assert(self@[k] == old(self)@[k]);
                }
            }
        }
        removed
    }

    /// A copy of the item with the given id.
    pub fn get(&self, id: &str) -> (r: Option<TrayItem>)
        requires
            self.wf(),
        ensures
            r.is_some() == self@.contains_key(id@),
            r matches Some(t) ==> t@ == self@[id@],
    {
        match self.find(id) {
            Some(i) => Some(self.items[i].duplicate()),
            None => None,
        }
    }

    /// Copies of all items, one per id.
    pub fn get_all(&self) -> (r: Vec<TrayItem>)
        requires
            self.wf(),
        ensures
            r@.len() == self@.dom().len(),
            forall|a: int| 0 <= a < r@.len() ==> #[trigger] self@.contains_key(r@[a].id@)
                && self@[r@[a].id@] == r@[a]@,
            forall|a: int, b: int| 0 <= a < r@.len() && 0 <= b < r@.len() && a != b
                ==> r@[a].id@ != r@[b].id@,
            forall|k: Seq<char>| #[trigger] self@.contains_key(k)
                ==> exists|a: int| 0 <= a < r@.len() && #[trigger] r@[a].id@ == k,
    {
        let mut r: Vec<TrayItem> = Vec::new();
        let mut i: usize = 0;
        while i < self.items.len()
            invariant
                self.wf(),
                i <= self.items@.len(),
                r@.len() == i,
                forall|a: int| 0 <= a < i ==> #[trigger] r@[a]@ == self.items@[a]@,
            decreases self.items@.len() - i,
        {
            r.push(self.items[i].duplicate());
            i = i + 1;
        }
        proof {
            assert forall|a: int, b: int| 0 <= a < r@.len() && 0 <= b < r@.len() && a != b
                implies r@[a].id@ != r@[b].id@ by {
                assert(r@[a]@ == self.items@[a]@);
                assert(r@[b]@ == self.items@[b]@);
            }
            assert forall|a: int| 0 <= a < r@.len() implies #[trigger] self@.contains_key(r@[a].id@)
                && self@[r@[a].id@] == r@[a]@ by {
                assert(r@[a]@ == self.items@[a]@);
                assert(self.model@.contains_key(self.items@[a].id@));
            }
            assert forall|k: Seq<char>| #[trigger] self@.contains_key(k)
                implies exists|a: int| 0 <= a < r@.len() && #[trigger] r@[a].id@ == k by {
                let w = choose|w: int| 0 <= w < self.items@.len() && #[trigger] self.items@[w].id@ == k;
                assert(r@[w]@ == self.items@[w]@);
            }
        }
        r
    }

    /// Whether an item with the given id is stored.
    pub fn contains(&self, id: &str) -> (r: bool)
        requires
            self.wf(),
        ensures
            r == self@.contains_key(id@),
    {
        self.find(id).is_some()
    }

    /// The number of stored items.
    pub fn len(&self) -> (r: usize)
        requires
            self.wf(),
        ensures
            r == self@.dom().len(),
    {
        self.items.len()
    }

    /// Whether the cache holds no item.
    pub fn is_empty(&self) -> (r: bool)
        requires
            self.wf(),
        ensures
            r == (self@.dom().len() == 0),
    {
        self.items.len() == 0
    }

    /// Replace the title of an item; records `ItemUpdated` when the id is present and does
    /// nothing otherwise.
    pub fn update_title(&mut self, id: &str, title: String)
        requires
            old(self).wf(),
        ensures
            final(self).wf(),
            old(self)@.contains_key(id@) ==> {
                &&& final(self)@ == old(self)@.insert(id@, TrayItemView { title: title@, ..old(self)@[id@] })
                &&& final(self).pending() == old(self).pending().push(CacheEventView::Updated(id@))
            },
            !old(self)@.contains_key(id@) ==> final(self)@ == old(self)@ && final(self).pending() == old(self).pending(),
    {
        if let Some(i) = self.find(id) {
            let mut t = self.items[i].duplicate();
            t.title = title;
            self.replace_at(i, t);
        }
    }

    /// Replace the status of an item; records `ItemUpdated` when the id is present and does
    /// nothing otherwise.
    pub fn update_status(&mut self, id: &str, status: ItemStatus)
        requires
            old(self).wf(),
        ensures
            final(self).wf(),
            old(self)@.contains_key(id@) ==> {
                &&& final(self)@ == old(self)@.insert(id@, TrayItemView { status: status, ..old(self)@[id@] })
                &&& final(self).pending() == old(self).pending().push(CacheEventView::Updated(id@))
            },
            !old(self)@.contains_key(id@) ==> final(self)@ == old(self)@ && final(self).pending() == old(self).pending(),
    {
        if let Some(i) = self.find(id) {
            let mut t = self.items[i].duplicate();
            t.status = status;
            self.replace_at(i, t);
        }
    }

    /// Replace the icon of an item; records `ItemUpdated` when the id is present and does
    /// nothing otherwise.
    pub fn update_icon(
        &mut self,
        id: &str,
        icon_name: Option<String>,
        icon_pixmap: Option<Vec<u8>>,
        width: u32,
        height: u32,
    )
        requires
            old(self).wf(),
        ensures
            final(self).wf(),
            old(self)@.contains_key(id@) ==> {
                &&& final(self)@ == old(self)@.insert(
                    id@,
                    TrayItemView {
                        icon_name: opt_view(icon_name),
                        icon_pixmap: opt_bytes_view(icon_pixmap),
                        icon_width: width,
                        icon_height: height,
                        ..old(self)@[id@]
                    },
                )
                &&& final(self).pending() == old(self).pending().push(CacheEventView::Updated(id@))
            },
            !old(self)@.contains_key(id@) ==> final(self)@ == old(self)@ && final(self).pending() == old(self).pending(),
    {
        if let Some(i) = self.find(id) {
            let mut t = self.items[i].duplicate();
            t.icon_name = icon_name;
            t.icon_pixmap = icon_pixmap;
            t.icon_width = width;
            t.icon_height = height;
            self.replace_at(i, t);
        }
    }

    /// Replace the tooltip of an item; records `ItemUpdated` when the id is present and does
    /// nothing otherwise.
    pub fn update_tooltip(&mut self, id: &str, tooltip: Option<String>)
        requires
            old(self).wf(),
        ensures
            final(self).wf(),
            old(self)@.contains_key(id@) ==> {
                &&& final(self)@ == old(self)@.insert(id@, TrayItemView { tooltip: opt_view(tooltip), ..old(self)@[id@] })
                &&& final(self).pending() == old(self).pending().push(CacheEventView::Updated(id@))
            },
            !old(self)@.contains_key(id@) ==> final(self)@ == old(self)@ && final(self).pending() == old(self).pending(),
    {
        if let Some(i) = self.find(id) {
            let mut t = self.items[i].duplicate();
            t.tooltip = tooltip;
            self.replace_at(i, t);
        }
    }

    /// Record a generic change, for when the changed item is not known.
    pub fn notify_changed(&mut self)
        ensures
            final(self)@ == old(self)@,
            final(self).wf() == old(self).wf(),
            final(self).pending() == old(self).pending().push(CacheEventView::Updated(Seq::empty())),
    {
        let s = String::new();
        self.record(CacheEvent::ItemUpdated(s));
    }

    /// Hand out the recorded events, oldest first, and clear the outbox.
    pub fn take_events(&mut self) -> (r: Vec<CacheEvent>)
        ensures
            final(self)@ == old(self)@,
            final(self).wf() == old(self).wf(),
            event_views(r@) == old(self).pending(),
            final(self).pending() == Seq::<CacheEventView>::empty(),
    {
        let mut r: Vec<CacheEvent> = Vec::new();
        std::mem::swap(&mut r, &mut self.events);
        assert(event_views(self.events@) =~= Seq::<CacheEventView>::empty());
        r
    }
}

impl Default for ItemCache {
    fn default() -> (r: ItemCache)
        ensures
            r.wf(),
            r@ == Map::<Seq<char>, TrayItemView>::empty(),
            r.pending() == Seq::<CacheEventView>::empty(),
    {
        ItemCache::new()
    }
}

} // verus!
