//! The registry side of the icon-source protocol: which items and hosts are registered.

use vstd::prelude::*;
use crate::text::{contains_str, copy_strings, distinct, views};

verus! {

/// Errors of item registration.
#[derive(Debug, Clone, Copy, PartialEq, Eq, Structural)]
pub enum WatcherError {
    /// A bare object path was registered and the caller's bus address is unknown.
    UnknownSender,
}

/// The identifier under which an item registration is stored: a bare object path is
/// qualified with the caller's own bus address (`{sender}:{path}`); anything else is kept
/// verbatim. `None` when a path needs qualifying and no sender is known.
pub open spec fn qualified_service(service: Seq<char>, sender: Option<Seq<char>>) -> Option<Seq<char>> {
    if service.len() > 0 && service[0] == '/' {
        match sender {
            Some(s) => Some(s + ":"@ + service),
            None => None,
        }
    } else {
        Some(service)
    }
}

/// Compute the identifier under which an item registration is stored.
pub fn qualify_service(service: &str, sender: Option<&str>) -> (r: Result<String, WatcherError>)
    ensures
        r is Ok <==> qualified_service(service@, match sender { Some(s) => Some(s@), None => None }) is Some,
        r matches Ok(full) ==> Some(full@) == qualified_service(service@, match sender { Some(s) => Some(s@), None => None }),
        r matches Err(e) ==> e == WatcherError::UnknownSender,
{
    if service.unicode_len() > 0 && service.get_char(0) == '/' {
        match sender {
            Some(s) => {
                let full = String::from_str(s).concat(":").concat(service);
                Ok(full)
            },
            None => Err(WatcherError::UnknownSender),
        }
    } else {
        Ok(service.to_owned())
    }
}

/// Registered items and hosts.
pub struct WatcherState {
    registered_items: Vec<String>,
    host_registered: bool,
    registered_hosts: Vec<String>,
}

impl WatcherState {
    /// The registered item identifiers.
    pub closed spec fn items(&self) -> Set<Seq<char>> {
        views(self.registered_items@).to_set()
    }

    /// The registered host names.
    pub closed spec fn hosts(&self) -> Set<Seq<char>> {
        views(self.registered_hosts@).to_set()
    }

    /// Whether a host has registered.
    pub closed spec fn host_flag(&self) -> bool {
        self.host_registered
    }

    /// Each identifier is stored once.
    pub closed spec fn wf(&self) -> bool {
        &&& distinct(views(self.registered_items@))
        &&& distinct(views(self.registered_hosts@))
    }

    /// No item or host registered.
    pub fn new() -> (r: WatcherState)
        ensures
            r.wf(),
            r.items() == Set::<Seq<char>>::empty(),
            r.hosts() == Set::<Seq<char>>::empty(),
            !r.host_flag(),
    {
        let r = WatcherState { registered_items: Vec::new(), host_registered: false, registered_hosts: Vec::new() };
        assert(r.items() =~= Set::<Seq<char>>::empty());
        assert(r.hosts() =~= Set::<Seq<char>>::empty());
        r
    }

    /// Register an item and return the identifier it is stored under, for the
    /// item-registered event; fails, changing nothing, when a bare path comes from an
    /// unknown sender.
    pub fn register_item(&mut self, service: &str, sender: Option<&str>) -> (r: Result<String, WatcherError>)
        requires
            old(self).wf(),
        ensures
            final(self).wf(),
            final(self).hosts() == old(self).hosts(),
            final(self).host_flag() == old(self).host_flag(),
            r is Ok <==> qualified_service(service@, match sender { Some(s) => Some(s@), None => None }) is Some,
            r matches Ok(full) ==> {
                &&& Some(full@) == qualified_service(service@, match sender { Some(s) => Some(s@), None => None })
                &&& final(self).items() == old(self).items().insert(full@)
            },
            r is Err ==> final(self).items() == old(self).items(),
    {
        let full = qualify_service(service, sender);
        match full {
            Ok(full) => {
                insert_unique(&mut self.registered_items, full.as_str());
                Ok(full)
            },
            Err(e) => Err(e),
        }
    }

    /// Register a host and raise the host-registered flag.
    pub fn register_host(&mut self, name: &str)
        requires
            old(self).wf(),
        ensures
            final(self).wf(),
            final(self).items() == old(self).items(),
            final(self).hosts() == old(self).hosts().insert(name@),
            final(self).host_flag(),
    {
        insert_unique(&mut self.registered_hosts, name);
        self.host_registered = true;
    }

    /// Drop an item registration; returns whether it was registered.
    pub fn unregister_item(&mut self, service: &str) -> (r: bool)
        requires
            old(self).wf(),
        ensures
            final(self).wf(),
            r == old(self).items().contains(service@),
            final(self).items() == old(self).items().remove(service@),
            final(self).hosts() == old(self).hosts(),
            final(self).host_flag() == old(self).host_flag(),
    {
        remove_unique(&mut self.registered_items, service)
    }

    /// The registered item identifiers, each once.
    pub fn registered_items(&self) -> (r: Vec<String>)
        requires
            self.wf(),
        ensures
            views(r@).to_set() == self.items(),
            distinct(views(r@)),
    {
        copy_strings(&self.registered_items)
    }

    /// Whether a host has registered.
    pub fn is_host_registered(&self) -> (r: bool)
        ensures
            r == self.host_flag(),
    {
        self.host_registered
    }
}

/// Add `s` to a list of distinct strings unless it is there already.
fn insert_unique(v: &mut Vec<String>, s: &str)
    requires
        distinct(views(old(v)@)),
    ensures
        distinct(views(final(v)@)),
        views(final(v)@).to_set() == views(old(v)@).to_set().insert(s@),
{
    if !contains_str(v, s) {
        let ghost before = views(v@);
        v.push(s.to_owned());
        proof {
            assert(views(v@) =~= before.push(s@));
            assert(views(v@).to_set() =~= before.to_set().insert(s@)) by {
                assert forall|x: Seq<char>| views(v@).to_set().contains(x) <==> before.to_set().insert(s@).contains(x) by {
                    if views(v@).contains(x) {
                        let i = choose|i: int| 0 <= i < views(v@).len() && views(v@)[i] == x;
                        if i < before.len() {
                            assert(before[i] == x);
                        }
                    }
                    if before.contains(x) {
                        let i = choose|i: int| 0 <= i < before.len() && before[i] == x;
                        assert(views(v@)[i] == x);
                    }
                    if x == s@ {
                        assert(views(v@)[before.len() as int] == x);
                    }
                }
            }
        }
    } else {
        assert(views(v@).to_set() =~= views(v@).to_set().insert(s@));
    }
}

/// Remove `s` from a list of distinct strings; returns whether it was there.
fn remove_unique(v: &mut Vec<String>, s: &str) -> (r: bool)
    requires
        distinct(views(old(v)@)),
    ensures
        distinct(views(final(v)@)),
        r == views(old(v)@).to_set().contains(s@),
        views(final(v)@).to_set() == views(old(v)@).to_set().remove(s@),
{
    let mut i: usize = 0;
    while i < v.len()
        invariant
            i <= v@.len(),
            v@ == old(v)@,
            distinct(views(old(v)@)),
            forall|j: int| 0 <= j < i ==> v@[j]@ != s@,
        decreases v@.len() - i,
    {
        if crate::text::str_eq(v[i].as_str(), s) {
            let ghost before = views(v@);
            v.remove(i);
            proof {
                assert(distinct(before));
                assert(views(v@) =~= before.remove(i as int));
                assert(before.to_set().contains(s@)) by { assert(before[i as int] == s@); }
                assert forall|x: Seq<char>| views(v@).to_set().contains(x) <==> before.to_set().remove(s@).contains(x) by {
                    if views(v@).contains(x) {
                        let k = choose|k: int| 0 <= k < views(v@).len() && views(v@)[k] == x;
                        let ok = if k < i { k } else { k + 1 };
                        assert(before[ok] == x);
                        assert(ok != i);
                        assert(before[ok] != before[i as int]);
                    }
                    if before.contains(x) && x != s@ {
                        let k = choose|k: int| 0 <= k < before.len() && before[k] == x;
                        assert(k != i);
                        let nk = if k < i { k } else { k - 1 };
                        assert(views(v@)[nk] == x);
                    }
                }
                assert(views(v@).to_set() =~= before.to_set().remove(s@));
                assert forall|a: int, b: int| 0 <= a < views(v@).len() && 0 <= b < views(v@).len() && a != b
                    implies views(v@)[a] != views(v@)[b] by {
                    let oa = if a < i { a } else { a + 1 };
                    let ob = if b < i { b } else { b + 1 };
                    assert(views(v@)[a] == before[oa]);
                    assert(views(v@)[b] == before[ob]);
                }
            }
            return true;
        }
        i = i + 1;
    }
    proof {
        assert(!views(v@).to_set().contains(s@)) by {
            if views(v@).contains(s@) {
                let k = choose|k: int| 0 <= k < views(v@).len() && views(v@)[k] == s@;
                assert(v@[k]@ == s@);
            }
        }
        assert(views(v@).to_set() =~= views(v@).to_set().remove(s@));
    }
    false
}

} // verus!
