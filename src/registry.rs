//! The module registry: which modules run, the items they published, the display order,
//! and the decisions taken on them (reconciliation with the configuration, ordering of the
//! merged item list, routing of commands).
//!
//! The registry decides; its owner carries the decisions out (starting and cancelling
//! worker tasks, calling hot-reload hooks, delivering notifications).
//!
//! Items published by a module that is not running are ignored, and stopping a module
//! discards its items at once, so a stopped module's items are never served.

use vstd::prelude::*;
use crate::config::{enabled_names, extend_order, Config};
use crate::host::{find_char, first_index};
use crate::modules::{item_views, ModuleEvent, ModuleInfo, ModuleItem, ModuleItemView};
use crate::notifications::{NotificationRequest, NotificationService};
use crate::text::{contains_str, distinct, str_eq, views};

verus! {

/// Errors of command routing.
#[derive(Debug, Clone, Copy, PartialEq, Eq, Structural)]
pub enum RegistryError {
    /// The item id has no `module:` prefix.
    InvalidId,
    /// No running module has the item's module name.
    NotFound,
}

/// Where a command on an item goes: the owning module and the item's id within it.
#[derive(Debug, Clone)]
pub struct Route {
    pub module: String,
    pub local_id: String,
}

/// An action invocation routed to its module.
#[derive(Debug, Clone)]
pub struct ActionCall {
    pub module: String,
    pub local_id: String,
    pub action_id: String,
    pub x: i32,
    pub y: i32,
}

/// What a reconciliation pass decided.
#[derive(Debug, Clone)]
pub struct SyncPlan {
    /// Running modules no longer enabled: to cancel and tear down.
    pub stop: Vec<String>,
    /// Enabled modules not yet running: to construct and launch.
    pub start: Vec<String>,
    /// Running modules still enabled: to offer the new configuration.
    pub reload: Vec<String>,
}

/// The elements of `s` that `t` holds, in order.
pub open spec fn keep_in(s: Seq<Seq<char>>, t: Seq<Seq<char>>) -> Seq<Seq<char>>
    decreases s.len(),
{
    if s.len() == 0 {
        Seq::empty()
    } else if t.contains(s.last()) {
        keep_in(s.drop_last(), t).push(s.last())
    } else {
        keep_in(s.drop_last(), t)
    }
}

/// The elements of `s` that `t` does not hold, in order.
pub open spec fn drop_in(s: Seq<Seq<char>>, t: Seq<Seq<char>>) -> Seq<Seq<char>>
    decreases s.len(),
{
    if s.len() == 0 {
        Seq::empty()
    } else if t.contains(s.last()) {
        drop_in(s.drop_last(), t)
    } else {
        drop_in(s.drop_last(), t).push(s.last())
    }
}

/// The elements of `s` that `t` does not hold, each once, in order of first occurrence.
pub open spec fn fresh(s: Seq<Seq<char>>, t: Seq<Seq<char>>) -> Seq<Seq<char>>
    decreases s.len(),
{
    if s.len() == 0 {
        Seq::empty()
    } else {
        let a = fresh(s.drop_last(), t);
        if t.contains(s.last()) || a.contains(s.last()) { a } else { a.push(s.last()) }
    }
}

/// The running set after reconciling `running` with `enabled`: the kept modules, then the
/// started ones.
pub open spec fn reconciled(running: Seq<Seq<char>>, enabled: Seq<Seq<char>>) -> Seq<Seq<char>> {
    keep_in(running, enabled) + fresh(enabled, running)
}

/// The names of merged-map entries.
pub open spec fn entry_names(es: Seq<(String, Vec<ModuleItem>)>) -> Seq<Seq<char>> {
    es.map_values(|e: (String, Vec<ModuleItem>)| e.0@)
}

/// The entries whose module `t` holds, in order.
pub open spec fn keep_entries(es: Seq<(String, Vec<ModuleItem>)>, t: Seq<Seq<char>>) -> Seq<(String, Vec<ModuleItem>)>
    decreases es.len(),
{
    if es.len() == 0 {
        Seq::empty()
    } else if t.contains(es.last().0@) {
        keep_entries(es.drop_last(), t).push(es.last())
    } else {
        keep_entries(es.drop_last(), t)
    }
}

/// Position of the entry of module `name`, or -1.
pub open spec fn entry_index(es: Seq<(String, Vec<ModuleItem>)>, name: Seq<char>) -> int
    decreases es.len(),
{
    if es.len() == 0 {
        -1
    } else if es[0].0@ == name {
        0
    } else {
        let r = entry_index(es.subrange(1, es.len() as int), name);
        if r < 0 { -1 } else { r + 1 }
    }
}

/// The items published by module `name`; none when it published nothing.
pub open spec fn lookup(es: Seq<(String, Vec<ModuleItem>)>, name: Seq<char>) -> Seq<ModuleItemView> {
    let i = entry_index(es, name);
    if i >= 0 { item_views(es[i].1@) } else { Seq::empty() }
}

/// The items of the modules listed in `order`, in that order.
pub open spec fn ordered_items(order: Seq<Seq<char>>, es: Seq<(String, Vec<ModuleItem>)>) -> Seq<ModuleItemView>
    decreases order.len(),
{
    if order.len() == 0 {
        Seq::empty()
    } else {
        ordered_items(order.drop_last(), es) + lookup(es, order.last())
    }
}

/// The items of the modules that `order` does not list, in map order.
pub open spec fn unordered_items(order: Seq<Seq<char>>, es: Seq<(String, Vec<ModuleItem>)>) -> Seq<ModuleItemView>
    decreases es.len(),
{
    if es.len() == 0 {
        Seq::empty()
    } else if order.contains(es.last().0@) {
        unordered_items(order, es.drop_last())
    } else {
        unordered_items(order, es.drop_last()) + item_views(es.last().1@)
    }
}

/// The merged item list: modules in display order, then the unlisted ones.
pub open spec fn merged_items(order: Seq<Seq<char>>, es: Seq<(String, Vec<ModuleItem>)>) -> Seq<ModuleItemView> {
    ordered_items(order, es) + unordered_items(order, es)
}

/// An item id split at its first colon into (module, local id).
pub open spec fn split_item_id(s: Seq<char>) -> Option<(Seq<char>, Seq<char>)> {
    let p = first_index(s, ':');
    if p >= 0 { Some((s.subrange(0, p), s.subrange(p + 1, s.len() as int))) } else { None }
}

proof fn lemma_entry_index(es: Seq<(String, Vec<ModuleItem>)>, name: Seq<char>, i: int)
    requires
        0 <= i <= es.len(),
        forall|j: int| 0 <= j < i ==> (#[trigger] es[j]).0@ != name,
        i < es.len() ==> es[i].0@ == name,
    ensures
        entry_index(es, name) == if i < es.len() { i } else { -1 },
    decreases i,
{
    if i > 0 {
        let t = es.subrange(1, es.len() as int);
        assert forall|j: int| 0 <= j < i - 1 implies (#[trigger] t[j]).0@ != name by {
            assert(t[j] == es[j + 1]);
        }
        if i < es.len() {
            assert(t[i - 1] == es[i]);
        }
        lemma_entry_index(t, name, i - 1);
    }
}

proof fn lemma_entry_index_found(es: Seq<(String, Vec<ModuleItem>)>, name: Seq<char>, k: int)
    requires
        0 <= k < es.len(),
        es[k].0@ == name,
    ensures
        0 <= entry_index(es, name) <= k,
        es[entry_index(es, name)].0@ == name,
    decreases k,
{
    if es[0].0@ != name {
        let t = es.subrange(1, es.len() as int);
        assert(t[k - 1] == es[k]);
        lemma_entry_index_found(t, name, k - 1);
        assert(t[entry_index(t, name)] == es[entry_index(t, name) + 1]);
    }
}

proof fn lemma_keep_in(s: Seq<Seq<char>>, t: Seq<Seq<char>>)
    ensures
        forall|x: Seq<char>| #[trigger] keep_in(s, t).contains(x) <==> s.contains(x) && t.contains(x),
        distinct(s) ==> distinct(keep_in(s, t)),
    decreases s.len(),
{
    if s.len() > 0 {
        let p = s.drop_last();
        lemma_keep_in(p, t);
        assert forall|x: Seq<char>| #[trigger] keep_in(s, t).contains(x) <==> s.contains(x) && t.contains(x) by {
            if s.contains(x) && !p.contains(x) {
                let k = choose|k: int| 0 <= k < s.len() && s[k] == x;
                if k < p.len() {
                    assert(p[k] == x);
                }
            }
            if p.contains(x) {
                let k = choose|k: int| 0 <= k < p.len() && p[k] == x;
                assert(s[k] == x);
            }
            if t.contains(s.last()) {
                let q = keep_in(p, t);
                if q.push(s.last()).contains(x) && x != s.last() {
                    let k = choose|k: int| 0 <= k < q.push(s.last()).len() && q.push(s.last())[k] == x;
                    assert(q[k] == x);
                }
                if q.contains(x) {
                    let k = choose|k: int| 0 <= k < q.len() && q[k] == x;
                    assert(q.push(s.last())[k] == x);
                }
                assert(q.push(s.last())[q.len() as int] == s.last());
            }
        }
        if distinct(s) {
            assert(distinct(p)) by {
                assert forall|i: int, j: int| 0 <= i < p.len() && 0 <= j < p.len() && i != j implies p[i] != p[j] by {
                    assert(p[i] == s[i] && p[j] == s[j]);
                }
            }
            if t.contains(s.last()) {
                let q = keep_in(p, t);
                assert(!p.contains(s.last())) by {
                    if p.contains(s.last()) {
                        let k = choose|k: int| 0 <= k < p.len() && p[k] == s.last();
                        assert(s[k] == s[s.len() - 1]);
                    }
                }
                assert(!q.contains(s.last()));
                assert forall|i: int, j: int| 0 <= i < q.push(s.last()).len() && 0 <= j < q.push(s.last()).len() && i != j
                    implies q.push(s.last())[i] != q.push(s.last())[j] by {
                    if i < q.len() && j < q.len() {
                    } else if i < q.len() {
                        assert(q.contains(q[i]));
                    } else {
                        assert(q.contains(q[j]));
                    }
                }
            }
        }
    }
}

proof fn lemma_drop_in(s: Seq<Seq<char>>, t: Seq<Seq<char>>)
    ensures
        forall|x: Seq<char>| #[trigger] drop_in(s, t).contains(x) <==> s.contains(x) && !t.contains(x),
    decreases s.len(),
{
    if s.len() > 0 {
        let p = s.drop_last();
        lemma_drop_in(p, t);
        assert forall|x: Seq<char>| #[trigger] drop_in(s, t).contains(x) <==> s.contains(x) && !t.contains(x) by {
            assert(s[s.len() - 1] == s.last());
            if s.contains(x) && !p.contains(x) {
                let k = choose|k: int| 0 <= k < s.len() && s[k] == x;
                if k < p.len() {
                    assert(p[k] == x);
                }
            }
            if p.contains(x) {
                let k = choose|k: int| 0 <= k < p.len() && p[k] == x;
                assert(s[k] == x);
            }
            if !t.contains(s.last()) {
                let q = drop_in(p, t);
                if q.push(s.last()).contains(x) && x != s.last() {
                    let k = choose|k: int| 0 <= k < q.push(s.last()).len() && q.push(s.last())[k] == x;
                    assert(q[k] == x);
                }
                if q.contains(x) {
                    let k = choose|k: int| 0 <= k < q.len() && q[k] == x;
                    assert(q.push(s.last())[k] == x);
                }
                assert(q.push(s.last())[q.len() as int] == s.last());
            }
        }
    }
}

proof fn lemma_fresh(s: Seq<Seq<char>>, t: Seq<Seq<char>>)
    ensures
        forall|x: Seq<char>| #[trigger] fresh(s, t).contains(x) <==> s.contains(x) && !t.contains(x),
        distinct(fresh(s, t)),
    decreases s.len(),
{
    if s.len() > 0 {
        let p = s.drop_last();
        lemma_fresh(p, t);
        let q = fresh(p, t);
        assert forall|x: Seq<char>| #[trigger] fresh(s, t).contains(x) <==> s.contains(x) && !t.contains(x) by {
            if s.contains(x) && !p.contains(x) {
                let k = choose|k: int| 0 <= k < s.len() && s[k] == x;
                if k < p.len() {
                    assert(p[k] == x);
                }
            }
            if p.contains(x) {
                let k = choose|k: int| 0 <= k < p.len() && p[k] == x;
                assert(s[k] == x);
            }
            if !(t.contains(s.last()) || q.contains(s.last())) {
                if q.push(s.last()).contains(x) && x != s.last() {
                    let k = choose|k: int| 0 <= k < q.push(s.last()).len() && q.push(s.last())[k] == x;
                    assert(q[k] == x);
                }
                if q.contains(x) {
                    let k = choose|k: int| 0 <= k < q.len() && q[k] == x;
                    assert(q.push(s.last())[k] == x);
                }
                assert(q.push(s.last())[q.len() as int] == s.last());
            }
        }
        if !(t.contains(s.last()) || q.contains(s.last())) {
            assert forall|i: int, j: int| 0 <= i < q.push(s.last()).len() && 0 <= j < q.push(s.last()).len() && i != j
                implies q.push(s.last())[i] != q.push(s.last())[j] by {
                if i < q.len() && j < q.len() {
                } else if i < q.len() {
                    assert(q.contains(q[i]));
                } else {
                    assert(q.contains(q[j]));
                }
            }
        }
    }
}

proof fn lemma_drop_in_empty(s: Seq<Seq<char>>, t: Seq<Seq<char>>)
    requires
        forall|i: int| 0 <= i < s.len() ==> t.contains(#[trigger] s[i]),
    ensures
        drop_in(s, t) == Seq::<Seq<char>>::empty(),
    decreases s.len(),
{
    if s.len() > 0 {
        let p = s.drop_last();
        assert forall|i: int| 0 <= i < p.len() implies t.contains(#[trigger] p[i]) by {
            assert(p[i] == s[i]);
        }
        lemma_drop_in_empty(p, t);
        assert(t.contains(s[s.len() - 1]));
    }
}

proof fn lemma_fresh_empty(s: Seq<Seq<char>>, t: Seq<Seq<char>>)
    requires
        forall|i: int| 0 <= i < s.len() ==> t.contains(#[trigger] s[i]),
    ensures
        fresh(s, t) == Seq::<Seq<char>>::empty(),
    decreases s.len(),
{
    if s.len() > 0 {
        let p = s.drop_last();
        assert forall|i: int| 0 <= i < p.len() implies t.contains(#[trigger] p[i]) by {
            assert(p[i] == s[i]);
        }
        lemma_fresh_empty(p, t);
        assert(t.contains(s[s.len() - 1]));
    }
}

/// Reconciliation correctness: with running modules `running` and enabled modules
/// `enabled`, exactly the running modules that are not enabled are stopped, exactly the
/// enabled modules that are not running are started (each once), exactly the running
/// modules that stay enabled are offered a reload, no module is both started and stopped,
/// and afterwards the running modules are exactly the enabled ones, each once.
pub proof fn lemma_reconcile_correct(running: Seq<Seq<char>>, enabled: Seq<Seq<char>>)
    requires
        distinct(running),
    ensures
        forall|x: Seq<char>| #[trigger] drop_in(running, enabled).contains(x) <==> running.contains(x) && !enabled.contains(x),
        forall|x: Seq<char>| #[trigger] fresh(enabled, running).contains(x) <==> enabled.contains(x) && !running.contains(x),
        forall|x: Seq<char>| #[trigger] keep_in(running, enabled).contains(x) <==> running.contains(x) && enabled.contains(x),
        forall|x: Seq<char>| !(drop_in(running, enabled).contains(x) && #[trigger] fresh(enabled, running).contains(x)),
        forall|x: Seq<char>| #[trigger] reconciled(running, enabled).contains(x) <==> enabled.contains(x),
        distinct(fresh(enabled, running)),
        distinct(reconciled(running, enabled)),
{
    lemma_keep_in(running, enabled);
    lemma_drop_in(running, enabled);
    lemma_fresh(enabled, running);
    let k = keep_in(running, enabled);
    let f = fresh(enabled, running);
    let r = k + f;
    assert forall|x: Seq<char>| #[trigger] r.contains(x) <==> enabled.contains(x) by {
        if r.contains(x) {
            let i = choose|i: int| 0 <= i < r.len() && r[i] == x;
            if i < k.len() {
                assert(k[i] == x);
                assert(k.contains(x));
            } else {
                assert(f[i - k.len()] == x);
                assert(f.contains(x));
            }
        }
        if enabled.contains(x) {
            if running.contains(x) {
                assert(k.contains(x));
                let i = choose|i: int| 0 <= i < k.len() && k[i] == x;
                assert(r[i] == x);
            } else {
                assert(f.contains(x));
                let i = choose|i: int| 0 <= i < f.len() && f[i] == x;
                assert(r[k.len() + i] == x);
            }
        }
    }
    assert forall|i: int, j: int| 0 <= i < r.len() && 0 <= j < r.len() && i != j implies r[i] != r[j] by {
        if i < k.len() && j < k.len() {
        } else if i >= k.len() && j >= k.len() {
            assert(r[i] == f[i - k.len()] && r[j] == f[j - k.len()]);
        } else if i < k.len() {
            assert(k.contains(k[i]));
            assert(f.contains(f[j - k.len()]));
        } else {
            assert(k.contains(k[j]));
            assert(f.contains(f[i - k.len()]));
        }
    }
}

/// Reconciliation idempotence: reconciling a second time with the same enabled modules
/// starts and stops nothing.
pub proof fn lemma_reconcile_idempotent(running: Seq<Seq<char>>, enabled: Seq<Seq<char>>)
    requires
        distinct(running),
    ensures
        drop_in(reconciled(running, enabled), enabled) == Seq::<Seq<char>>::empty(),
        fresh(enabled, reconciled(running, enabled)) == Seq::<Seq<char>>::empty(),
{
    lemma_reconcile_correct(running, enabled);
    let r = reconciled(running, enabled);
    assert forall|i: int| 0 <= i < r.len() implies enabled.contains(#[trigger] r[i]) by {
        assert(r.contains(r[i]));
    }
    lemma_drop_in_empty(r, enabled);
    assert forall|i: int| 0 <= i < enabled.len() implies r.contains(#[trigger] enabled[i]) by {
        assert(enabled.contains(enabled[i]));
    }
    lemma_fresh_empty(enabled, r);
}

/// The orchestrator's state: running modules, display order and merged items.
pub struct ModuleRegistry {
    running: Vec<String>,
    order: Vec<String>,
    items: Vec<(String, Vec<ModuleItem>)>,
    notifications: NotificationService,
    events: Vec<ModuleEvent>,
}

impl ModuleRegistry {
    /// Names of the running modules, in start order.
    pub closed spec fn running_names(&self) -> Seq<Seq<char>> {
        views(self.running@)
    }

    /// The configured display order.
    pub closed spec fn display_order(&self) -> Seq<Seq<char>> {
        views(self.order@)
    }

    /// The merged item map: one entry per module that published items.
    pub closed spec fn entries(&self) -> Seq<(String, Vec<ModuleItem>)> {
        self.items@
    }

    /// The notification settings in use.
    pub closed spec fn notification_service(&self) -> NotificationService {
        self.notifications
    }

    /// Events raised by the registry itself and not yet taken, oldest first.
    pub closed spec fn pending(&self) -> Seq<ModuleEvent> {
        self.events@
    }

    /// The running modules of a well-formed registry are named once each.
    pub proof fn lemma_running_names_distinct(&self)
        requires
            self.wf(),
        ensures
            distinct(self.running_names()),
    {
    }

    /// Module names are unique, and only running modules have entries.
    pub closed spec fn wf(&self) -> bool {
        &&& distinct(views(self.running@))
        &&& distinct(entry_names(self.items@))
        &&& forall|i: int| 0 <= i < self.items@.len() ==> views(self.running@).contains(#[trigger] self.items@[i].0@)
    }

    /// A registry with nothing running and the given display order.
    pub fn new(module_order: Vec<String>, notification_service: NotificationService) -> (r: ModuleRegistry)
        ensures
            r.wf(),
            r.running_names() == Seq::<Seq<char>>::empty(),
            r.display_order() == views(module_order@),
            r.entries() == Seq::<(String, Vec<ModuleItem>)>::empty(),
            r.notification_service() == notification_service,
            r.pending() == Seq::<ModuleEvent>::empty(),
    {
        let r = ModuleRegistry {
            running: Vec::new(),
            order: module_order,
            items: Vec::new(),
            notifications: notification_service,
            events: Vec::new(),
        };
        assert(views(r.running@) =~= Seq::<Seq<char>>::empty());
        assert(entry_names(r.items@) =~= Seq::<Seq<char>>::empty());
        r
    }

    /// Position of module `name`'s entry in the merged map.
    fn find_entry(&self, name: &str) -> (r: Option<usize>)
        ensures
            match r {
                Some(i) => i < self.items@.len() && entry_index(self.items@, name@) == i
                    && self.items@[i as int].0@ == name@,
                None => entry_index(self.items@, name@) == -1,
            },
    {
        let mut i: usize = 0;
        while i < self.items.len()
            invariant
                i <= self.items@.len(),
                forall|j: int| 0 <= j < i ==> (#[trigger] self.items@[j]).0@ != name@,
            decreases self.items@.len() - i,
        {
            if str_eq(self.items[i].0.as_str(), name) {
                proof { lemma_entry_index(self.items@, name@, i as int); }
                return Some(i);
            }
            i = i + 1;
        }
        proof { lemma_entry_index(self.items@, name@, self.items@.len() as int); }
        None
    }

    /// Apply a module event. A running module's item list replaces its previous one; a
    /// list from a module that is not running is ignored. A notification request comes
    /// back for delivery, when notifications are enabled.
    pub fn handle_event(&mut self, event: ModuleEvent) -> (r: Option<NotificationRequest>)
        requires
            old(self).wf(),
        ensures
            final(self).wf(),
            final(self).running_names() == old(self).running_names(),
            final(self).display_order() == old(self).display_order(),
            final(self).notification_service() == old(self).notification_service(),
            final(self).pending() == old(self).pending(),
            match event {
                ModuleEvent::ItemsUpdated { module_name, items } => {
                    &&& r is None
                    &&& !old(self).running_names().contains(module_name@) ==> final(self).entries() == old(self).entries()
                    &&& old(self).running_names().contains(module_name@) ==> {
                        let i = entry_index(old(self).entries(), module_name@);
                        &&& i >= 0 ==> final(self).entries() == old(self).entries().update(i, (module_name, items))
                        &&& i < 0 ==> final(self).entries() == old(self).entries().push((module_name, items))
                    }
                },
                ModuleEvent::Notification { title, body, urgency } => {
                    &&& final(self).entries() == old(self).entries()
                    &&& r is Some <==> old(self).notification_service().is_enabled()
                    &&& r matches Some(n) ==> n.summary@ == title@ && n.body@ == body@ && n.urgency == urgency
                        && n.icon is None
                        && n.timeout == NotificationService::timeout_of(old(self).notification_service().timeout_setting())
                },
                ModuleEvent::ConfigReloaded => r is None && final(self).entries() == old(self).entries(),
            },
    {
        match event {
            ModuleEvent::ItemsUpdated { module_name, items } => {
                if !contains_str(&self.running, module_name.as_str()) {
                    return None;
                }
                let ghost gname = module_name;
                let ghost gitems = items;
                let ghost before = self.items@;
                match self.find_entry(module_name.as_str()) {
                    Some(i) => {
                        self.items.set(i, (module_name, items));
                        proof {
                            assert(entry_names(self.items@) =~= entry_names(before).update(i as int, gname@));
                            assert(entry_names(before)[i as int] == gname@);
                            assert(entry_names(self.items@) =~= entry_names(before));
                            assert forall|j: int| 0 <= j < self.items@.len() implies views(self.running@).contains(#[trigger] self.items@[j].0@) by {
                                if j != i {
                                    assert(self.items@[j] == before[j]);
                                }
                            }
                        }
                    },
                    None => {
                        self.items.push((module_name, items));
                        proof {
                            assert(entry_names(self.items@) =~= entry_names(before).push(gname@));
                            assert(!entry_names(before).contains(gname@)) by {
                                if entry_names(before).contains(gname@) {
                                    let k = choose|k: int| 0 <= k < entry_names(before).len() && entry_names(before)[k] == gname@;
                                    assert(entry_names(before)[k] == before[k].0@);
                                    lemma_entry_index_found(before, gname@, k);
                                }
                            }
                            let en = entry_names(self.items@);
                            assert forall|a: int, b: int| 0 <= a < en.len() && 0 <= b < en.len() && a != b implies en[a] != en[b] by {
                                if a == before.len() {
                                    assert(entry_names(before).contains(en[b]));
                                } else if b == before.len() {
                                    assert(entry_names(before).contains(en[a]));
                                }
                            }
                            assert forall|j: int| 0 <= j < self.items@.len() implies views(self.running@).contains(#[trigger] self.items@[j].0@) by {
                                if j < before.len() {
                                    assert(self.items@[j] == before[j]);
                                }
                            }
                        }
                    },
                }
                None
            },
            ModuleEvent::Notification { title, body, urgency } => {
                self.notifications.request(title.as_str(), body.as_str(), urgency)
            },
            ModuleEvent::ConfigReloaded => None,
        }
    }

    /// Reconcile the running modules with the modules that `config` enables: stop the
    /// running ones it no longer enables (discarding their items), start the enabled ones
    /// not running, and offer the rest a reload.
    pub fn sync_modules_with_config(&mut self, config: &Config) -> (r: SyncPlan)
        requires
            old(self).wf(),
        ensures
            final(self).wf(),
            views(r.stop@) == drop_in(old(self).running_names(), enabled_names(*config)),
            views(r.start@) == fresh(enabled_names(*config), old(self).running_names()),
            views(r.reload@) == keep_in(old(self).running_names(), enabled_names(*config)),
            final(self).running_names() == reconciled(old(self).running_names(), enabled_names(*config)),
            final(self).entries() == keep_entries(old(self).entries(), enabled_names(*config)),
            final(self).display_order() == old(self).display_order(),
            final(self).notification_service() == old(self).notification_service(),
            final(self).pending() == old(self).pending(),
    {
        let enabled = config.enabled_modules();
        self.sync_with_enabled(&enabled)
    }

    /// Reconcile the running modules with the given enabled module names.
    pub fn sync_with_enabled(&mut self, enabled: &Vec<String>) -> (r: SyncPlan)
        requires
            old(self).wf(),
        ensures
            final(self).wf(),
            views(r.stop@) == drop_in(old(self).running_names(), views(enabled@)),
            views(r.start@) == fresh(views(enabled@), old(self).running_names()),
            views(r.reload@) == keep_in(old(self).running_names(), views(enabled@)),
            final(self).running_names() == reconciled(old(self).running_names(), views(enabled@)),
            final(self).entries() == keep_entries(old(self).entries(), views(enabled@)),
            final(self).display_order() == old(self).display_order(),
            final(self).notification_service() == old(self).notification_service(),
            final(self).pending() == old(self).pending(),
    {
        let ghost e = views(enabled@);
        let ghost run = views(self.running@);
        let mut stop: Vec<String> = Vec::new();
        let mut reload: Vec<String> = Vec::new();
        let mut i: usize = 0;
        while i < self.running.len()
            invariant
                self.running@ == old(self).running@,
                run == views(self.running@),
                e == views(enabled@),
                i <= self.running@.len(),
                views(stop@) == drop_in(run.subrange(0, i as int), e),
                views(reload@) == keep_in(run.subrange(0, i as int), e),
            decreases self.running@.len() - i,
        {
            proof {
                assert(run.subrange(0, i as int + 1).drop_last() =~= run.subrange(0, i as int));
                assert(run.subrange(0, i as int + 1).last() == run[i as int]);
            }
            let name = self.running[i].clone();
            if contains_str(enabled, name.as_str()) {
                reload.push(name);
                assert(views(reload@) =~= keep_in(run.subrange(0, i as int + 1), e));
            } else {
                stop.push(name);
                assert(views(stop@) =~= drop_in(run.subrange(0, i as int + 1), e));
            }
            i = i + 1;
        }
        assert(run.subrange(0, run.len() as int) =~= run);
        let mut start: Vec<String> = Vec::new();
        let mut j: usize = 0;
        while j < enabled.len()
            invariant
                self.running@ == old(self).running@,
                run == views(self.running@),
                e == views(enabled@),
                j <= enabled@.len(),
                views(start@) == fresh(e.subrange(0, j as int), run),
            decreases enabled@.len() - j,
        {
            proof {
                assert(e.subrange(0, j as int + 1).drop_last() =~= e.subrange(0, j as int));
                assert(e.subrange(0, j as int + 1).last() == e[j as int]);
            }
            let name = enabled[j].as_str();
            if !contains_str(&self.running, name) && !contains_str(&start, name) {
                start.push(name.to_owned());
                assert(views(start@) =~= fresh(e.subrange(0, j as int + 1), run));
            }
            j = j + 1;
        }
        assert(e.subrange(0, e.len() as int) =~= e);
        let mut next: Vec<String> = Vec::new();
        append_names(&mut next, &reload);
        append_names(&mut next, &start);
        assert(views(next@) =~= reconciled(run, e));
        proof { lemma_reconcile_correct(run, e); }
        self.running = next;
        let ghost old_items = self.items@;
        let mut k: usize = 0;
        let ghost mut done: int = 0;
        while k < self.items.len()
            invariant
                0 <= done <= old_items.len(),
                e == views(enabled@),
                views(self.running@) == reconciled(run, e),
                self.order == old(self).order,
                self.notifications == old(self).notifications,
                self.events == old(self).events,
                self.items@ == keep_entries(old_items.subrange(0, done), e) + old_items.subrange(done, old_items.len() as int),
                k == keep_entries(old_items.subrange(0, done), e).len(),
            decreases self.items@.len() - k,
        {
            let ghost kept = keep_entries(old_items.subrange(0, done), e);
            proof {
                assert(old_items.subrange(0, done + 1).drop_last() =~= old_items.subrange(0, done));
                assert(self.items@[k as int] == old_items[done]);
                assert(old_items.subrange(0, done + 1).last() == old_items[done]);
            }
            if contains_str(enabled, self.items[k].0.as_str()) {
                k = k + 1;
                proof {
                    assert(self.items@ =~= keep_entries(old_items.subrange(0, done + 1), e) + old_items.subrange(done + 1, old_items.len() as int));
                }
            } else {
                self.items.remove(k);
                proof {
                    assert(self.items@ =~= keep_entries(old_items.subrange(0, done + 1), e) + old_items.subrange(done + 1, old_items.len() as int));
                }
            }
            proof { done = done + 1; }
        }
        proof {
            if done < old_items.len() {
                assert(self.items@.len() > k);
            }
            assert(old_items.subrange(0, old_items.len() as int) =~= old_items);
            assert(self.items@ =~= keep_entries(old_items, e));
            lemma_keep_entries(old_items, e);
            assert(views(self.running@) == reconciled(run, e));
            assert forall|a: int| 0 <= a < self.items@.len() implies views(self.running@).contains(#[trigger] self.items@[a].0@) by {
                assert(entry_names(self.items@)[a] == self.items@[a].0@);
                assert(e.contains(self.items@[a].0@));
                assert(reconciled(run, e).contains(self.items@[a].0@));
            }
        }
        SyncPlan { stop, start, reload }
    }

    /// Replace the display order with the one `config` gives and reconcile with it.
    pub fn reload_config(&mut self, config: &Config) -> (r: SyncPlan)
        requires
            old(self).wf(),
        ensures
            final(self).wf(),
            final(self).display_order() == extend_order(views(config.modules.order@), enabled_names(*config)),
            views(r.stop@) == drop_in(old(self).running_names(), enabled_names(*config)),
            views(r.start@) == fresh(enabled_names(*config), old(self).running_names()),
            views(r.reload@) == keep_in(old(self).running_names(), enabled_names(*config)),
            final(self).running_names() == reconciled(old(self).running_names(), enabled_names(*config)),
            final(self).entries() == keep_entries(old(self).entries(), enabled_names(*config)),
            final(self).notification_service() == old(self).notification_service(),
            final(self).pending() == old(self).pending().push(ModuleEvent::ConfigReloaded),
    {
        self.order = config.module_order();
        let plan = self.sync_modules_with_config(config);
        self.events.push(ModuleEvent::ConfigReloaded);
        plan
    }

    /// Hand out the events the registry itself raised, oldest first, and clear them.
    pub fn take_events(&mut self) -> (r: Vec<ModuleEvent>)
        requires
            old(self).wf(),
        ensures
            final(self).wf(),
            r@ == old(self).pending(),
            final(self).pending() == Seq::<ModuleEvent>::empty(),
            final(self).running_names() == old(self).running_names(),
            final(self).display_order() == old(self).display_order(),
            final(self).entries() == old(self).entries(),
            final(self).notification_service() == old(self).notification_service(),
    {
        let mut r: Vec<ModuleEvent> = Vec::new();
        std::mem::swap(&mut r, &mut self.events);
        r
    }

    /// All published items: modules in display order, each module's list in place, then the
    /// modules the order does not list, in the order they first published.
    pub fn get_all_items(&self) -> (r: Vec<ModuleItem>)
        ensures
            item_views(r@) == merged_items(self.display_order(), self.entries()),
    {
        let ghost o = views(self.order@);
        let mut out: Vec<ModuleItem> = Vec::new();
        let mut i: usize = 0;
        while i < self.order.len()
            invariant
                o == views(self.order@),
                i <= self.order@.len(),
                item_views(out@) == ordered_items(o.subrange(0, i as int), self.items@),
            decreases self.order@.len() - i,
        {
            proof {
                assert(o.subrange(0, i as int + 1).drop_last() =~= o.subrange(0, i as int));
                assert(o.subrange(0, i as int + 1).last() == o[i as int]);
            }
            match self.find_entry(self.order[i].as_str()) {
                Some(e) => {
                    append_copies(&mut out, &self.items[e].1);
                },
                None => {
                    assert(item_views(out@) =~= item_views(out@) + Seq::<ModuleItemView>::empty());
                },
            }
            i = i + 1;
        }
        assert(o.subrange(0, o.len() as int) =~= o);
        let ghost es = self.items@;
        let mut j: usize = 0;
        while j < self.items.len()
            invariant
                o == views(self.order@),
                es == self.items@,
                j <= es.len(),
                item_views(out@) == ordered_items(o, es) + unordered_items(o, es.subrange(0, j as int)),
            decreases es.len() - j,
        {
            proof {
                assert(es.subrange(0, j as int + 1).drop_last() =~= es.subrange(0, j as int));
                assert(es.subrange(0, j as int + 1).last() == es[j as int]);
            }
            if !contains_str(&self.order, self.items[j].0.as_str()) {
                append_copies(&mut out, &self.items[j].1);
                assert(item_views(out@) =~= ordered_items(o, es) + unordered_items(o, es.subrange(0, j as int + 1)));
            }
            j = j + 1;
        }
        assert(es.subrange(0, es.len() as int) =~= es);
        out
    }

    /// The items of one module; none when it published nothing.
    pub fn get_module_items(&self, module_name: &str) -> (r: Vec<ModuleItem>)
        ensures
            item_views(r@) == lookup(self.entries(), module_name@),
    {
        let mut out: Vec<ModuleItem> = Vec::new();
        match self.find_entry(module_name) {
            Some(e) => {
                append_copies(&mut out, &self.items[e].1);
                assert(item_views(out@) =~= lookup(self.entries(), module_name@));
            },
            None => {
                assert(item_views(out@) =~= lookup(self.entries(), module_name@));
            },
        }
        out
    }

    /// The running modules, in start order.
    pub fn get_modules(&self) -> (r: Vec<ModuleInfo>)
        ensures
            r@.len() == self.running_names().len(),
            forall|i: int| 0 <= i < r@.len() ==> (#[trigger] r@[i]).name@ == self.running_names()[i] && r@[i].enabled,
    {
        let mut out: Vec<ModuleInfo> = Vec::new();
        let mut i: usize = 0;
        while i < self.running.len()
            invariant
                i <= self.running@.len(),
                out@.len() == i,
                forall|k: int| 0 <= k < i ==> (#[trigger] out@[k]).name@ == self.running@[k]@ && out@[k].enabled,
            decreases self.running@.len() - i,
        {
            out.push(ModuleInfo { name: self.running[i].clone(), enabled: true });
            i = i + 1;
        }
        out
    }

    /// The module that owns an item and the item's id within it: the id is split at its
    /// first colon. Fails with `InvalidId` when there is no colon and with `NotFound` when
    /// no running module has that name.
    pub fn route(&self, item_id: &str) -> (r: Result<Route, RegistryError>)
        ensures
            split_item_id(item_id@) is None ==> (r matches Err(e) && e == RegistryError::InvalidId),
            split_item_id(item_id@) matches Some((m, l)) ==> {
                &&& self.running_names().contains(m) ==> (r matches Ok(route) && route.module@ == m && route.local_id@ == l)
                &&& !self.running_names().contains(m) ==> (r matches Err(e) && e == RegistryError::NotFound)
            },
    {
        match find_char(item_id, ':') {
            None => Err(RegistryError::InvalidId),
            Some(p) => {
                let n = item_id.unicode_len();
                let module = item_id.substring_char(0, p);
                let local = item_id.substring_char(p + 1, n);
                if contains_str(&self.running, module) {
                    Ok(Route { module: module.to_owned(), local_id: local.to_owned() })
                } else {
                    Err(RegistryError::NotFound)
                }
            },
        }
    }

    /// Route an action invocation on an item to its module, as [`ModuleRegistry::route`]
    /// does, carrying the action and position through.
    pub fn invoke_action(&self, item_id: &str, action_id: &str, x: i32, y: i32) -> (r: Result<ActionCall, RegistryError>)
        ensures
            split_item_id(item_id@) is None ==> (r matches Err(e) && e == RegistryError::InvalidId),
            split_item_id(item_id@) matches Some((m, l)) ==> {
                &&& self.running_names().contains(m) ==> (r matches Ok(call) && call.module@ == m
                    && call.local_id@ == l && call.action_id@ == action_id@ && call.x == x && call.y == y)
                &&& !self.running_names().contains(m) ==> (r matches Err(e) && e == RegistryError::NotFound)
            },
    {
        match self.route(item_id) {
            Ok(route) => Ok(ActionCall {
                module: route.module,
                local_id: route.local_id,
                action_id: action_id.to_owned(),
                x,
                y,
            }),
            Err(e) => Err(e),
        }
    }
}

/// Append copies of `src` to `out`.
fn append_copies(out: &mut Vec<ModuleItem>, src: &Vec<ModuleItem>)
    ensures
        item_views(final(out)@) == item_views(old(out)@) + item_views(src@),
{
    let ghost start = item_views(out@);
    let mut i: usize = 0;
    while i < src.len()
        invariant
            i <= src@.len(),
            item_views(out@) == start + item_views(src@.subrange(0, i as int)),
        decreases src@.len() - i,
    {
        let ghost before = out@;
        out.push(src[i].duplicate());
        proof {
            assert(item_views(out@) =~= item_views(before).push(src@[i as int]@));
            assert(item_views(src@.subrange(0, i as int + 1)) =~= item_views(src@.subrange(0, i as int)).push(src@[i as int]@));
        }
        i = i + 1;
    }
    assert(src@.subrange(0, src@.len() as int) =~= src@);
}

/// Append copies of the names in `src` to `out`.
fn append_names(out: &mut Vec<String>, src: &Vec<String>)
    ensures
        views(final(out)@) == views(old(out)@) + views(src@),
{
    let ghost start = views(out@);
    let mut i: usize = 0;
    while i < src.len()
        invariant
            i <= src@.len(),
            views(out@) == start + views(src@.subrange(0, i as int)),
        decreases src@.len() - i,
    {
        let ghost before = views(out@);
        out.push(src[i].clone());
        assert(views(out@) =~= before.push(src@[i as int]@));
        assert(views(src@.subrange(0, i as int + 1)) =~= views(src@.subrange(0, i as int)).push(src@[i as int]@));
        assert(views(out@) =~= start + views(src@.subrange(0, i as int + 1)));
        i = i + 1;
    }
    assert(src@.subrange(0, src@.len() as int) =~= src@);
}

proof fn lemma_keep_entries(es: Seq<(String, Vec<ModuleItem>)>, t: Seq<Seq<char>>)
    ensures
        forall|i: int| 0 <= i < keep_entries(es, t).len() ==> t.contains(#[trigger] keep_entries(es, t)[i].0@)
            && entry_names(es).contains(keep_entries(es, t)[i].0@),
        distinct(entry_names(es)) ==> distinct(entry_names(keep_entries(es, t))),
    decreases es.len(),
{
    if es.len() > 0 {
        let p = es.drop_last();
        lemma_keep_entries(p, t);
        let q = keep_entries(p, t);
        assert forall|x: Seq<char>| entry_names(p).contains(x) implies entry_names(es).contains(x) by {
            let k = choose|k: int| 0 <= k < entry_names(p).len() && entry_names(p)[k] == x;
            assert(entry_names(es)[k] == x);
        }
        assert(entry_names(es)[es.len() - 1] == es.last().0@);
        if t.contains(es.last().0@) {
            let kq = q.push(es.last());
            assert forall|i: int| 0 <= i < kq.len() implies t.contains(#[trigger] kq[i].0@)
                && entry_names(es).contains(kq[i].0@) by {
                if i < q.len() {
                    assert(kq[i] == q[i]);
                }
            }
        }
        if distinct(entry_names(es)) {
            assert(distinct(entry_names(p))) by {
                assert forall|a: int, b: int| 0 <= a < entry_names(p).len() && 0 <= b < entry_names(p).len() && a != b
                    implies entry_names(p)[a] != entry_names(p)[b] by {
                    assert(entry_names(p)[a] == entry_names(es)[a]);
                    assert(entry_names(p)[b] == entry_names(es)[b]);
                }
            }
            if t.contains(es.last().0@) {
                let kq = q.push(es.last());
                assert(!entry_names(p).contains(es.last().0@)) by {
                    if entry_names(p).contains(es.last().0@) {
                        let k = choose|k: int| 0 <= k < entry_names(p).len() && entry_names(p)[k] == es.last().0@;
                        assert(entry_names(es)[k] == entry_names(p)[k]);
                    }
                }
                let qn = entry_names(q);
                assert(entry_names(kq) =~= qn.push(es.last().0@));
                assert forall|a: int, b: int| 0 <= a < entry_names(kq).len() && 0 <= b < entry_names(kq).len() && a != b
                    implies entry_names(kq)[a] != entry_names(kq)[b] by {
                    if a < qn.len() && b < qn.len() {
                    } else if a < qn.len() {
                        assert(qn[a] == q[a].0@);
                        assert(entry_names(p).contains(q[a].0@));
                    } else {
                        assert(qn[b] == q[b].0@);
                        assert(entry_names(p).contains(q[b].0@));
                    }
                }
            }
        }
    }
}

} // verus!
