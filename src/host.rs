//! The host side of the icon-source protocol: how service descriptors, item properties and
//! owner changes become cache operations.

use vstd::prelude::*;
use crate::cache::ItemCache;
use crate::item::{category_from_lower, lower_of, status_from_lower, ItemCategory, ItemStatus, TrayItem};
use crate::text::{opt_bytes_view, opt_view};

verus! {

/// Errors of the host's item commands.
#[derive(Debug, Clone, Copy, PartialEq, Eq, Structural)]
pub enum HostError {
    /// No item with the given id is known.
    NotFound,
}

/// Position of the first `c` in `s`, or -1.
pub open spec fn first_index(s: Seq<char>, c: char) -> int
    decreases s.len(),
{
    if s.len() == 0 {
        -1
    } else if s[0] == c {
        0
    } else {
        let r = first_index(s.subrange(1, s.len() as int), c);
        if r < 0 { -1 } else { r + 1 }
    }
}

/// Position of the first `a` directly followed by `b` in `s`, or -1.
pub open spec fn first_pair(s: Seq<char>, a: char, b: char) -> int
    decreases s.len(),
{
    if s.len() < 2 {
        -1
    } else if s[0] == a && s[1] == b {
        0
    } else {
        let r = first_pair(s.subrange(1, s.len() as int), a, b);
        if r < 0 { -1 } else { r + 1 }
    }
}

proof fn lemma_first_index(s: Seq<char>, c: char, i: int)
    requires
        0 <= i <= s.len(),
        forall|j: int| 0 <= j < i ==> s[j] != c,
        i < s.len() ==> s[i] == c,
    ensures
        first_index(s, c) == if i < s.len() { i } else { -1 },
    decreases i,
{
    if i > 0 {
        let t = s.subrange(1, s.len() as int);
        assert forall|j: int| 0 <= j < i - 1 implies t[j] != c by {
            assert(t[j] == s[j + 1]);
        }
        if i < s.len() {
            assert(t[i - 1] == s[i]);
        }
        lemma_first_index(t, c, i - 1);
    }
}

proof fn lemma_first_pair(s: Seq<char>, a: char, b: char, i: int)
    requires
        0 <= i <= s.len(),
        forall|j: int| 0 <= j < i && j + 1 < s.len() ==> !(#[trigger] s[j] == a && s[j + 1] == b),
        i + 1 < s.len() ==> s[i] == a && s[i + 1] == b,
        i + 1 >= s.len() ==> i == s.len(),
    ensures
        first_pair(s, a, b) == if i < s.len() { i } else { -1 },
    decreases i,
{
    if s.len() >= 2 && i > 0 {
        let t = s.subrange(1, s.len() as int);
        assert forall|j: int| 0 <= j < i - 1 && j + 1 < t.len() implies !(#[trigger] t[j] == a && t[j + 1] == b) by {
            assert(t[j] == s[j + 1]);
            assert(t[j + 1] == s[j + 2]);
        }
        if i + 1 < s.len() {
            assert(t[i - 1] == s[i]);
            assert(t[i] == s[i + 1]);
        }
        lemma_first_pair(t, a, b, i - 1);
    } else if s.len() < 2 {
    }
}

/// Position of the first `c` in `s`.
pub(crate) fn find_char(s: &str, c: char) -> (r: Option<usize>)
    ensures
        match r {
            Some(i) => first_index(s@, c) == i as int && i < s@.len(),
            None => first_index(s@, c) == -1,
        },
{
    let n = s.unicode_len();
    let mut i: usize = 0;
    while i < n
        invariant
            n == s@.len(),
            i <= n,
            forall|j: int| 0 <= j < i ==> s@[j] != c,
        decreases n - i,
    {
        if s.get_char(i) == c {
            proof { lemma_first_index(s@, c, i as int); }
            return Some(i);
        }
        i = i + 1;
    }
    proof { lemma_first_index(s@, c, n as int); }
    None
}

/// Position of the first `a` directly followed by `b` in `s`.
fn find_pair(s: &str, a: char, b: char) -> (r: Option<usize>)
    ensures
        match r {
            Some(i) => first_pair(s@, a, b) == i as int && i + 1 < s@.len(),
            None => first_pair(s@, a, b) == -1,
        },
{
    let n = s.unicode_len();
    if n < 2 {
        proof { lemma_first_pair(s@, a, b, n as int); }
        return None;
    }
    let mut i: usize = 0;
    while i + 1 < n
        invariant
            n == s@.len(),
            n >= 2,
            i + 1 <= n,
            forall|j: int| 0 <= j < i && j + 1 < n ==> !(#[trigger] s@[j] == a && s@[j + 1] == b),
        decreases n - i,
    {
        if s.get_char(i) == a && s.get_char(i + 1) == b {
            proof { lemma_first_pair(s@, a, b, i as int); }
            return Some(i);
        }
        i = i + 1;
    }
    proof {
        assert forall|j: int| 0 <= j < n && j + 1 < n implies !(#[trigger] s@[j] == a && s@[j + 1] == b) by {}
        lemma_first_pair(s@, a, b, n as int);
    }
    None
}

/// Object path assumed when a service descriptor names none.
pub open spec fn default_item_path() -> Seq<char> {
    "/StatusNotifierItem"@
}

/// The (bus address, object path) that a service descriptor names.
pub open spec fn service_parts(s: Seq<char>) -> (Seq<char>, Seq<char>) {
    if s.len() > 0 && s[0] == ':' {
        let p = first_index(s, '/');
        if p >= 0 {
            (s.subrange(0, p), s.subrange(p, s.len() as int))
        } else {
            (s, default_item_path())
        }
    } else {
        let q = first_pair(s, ':', '/');
        if q >= 0 {
            (s.subrange(0, q), s.subrange(q + 1, s.len() as int))
        } else {
            let p = first_index(s, '/');
            if p >= 0 {
                (s.subrange(0, p), s.subrange(p, s.len() as int))
            } else {
                (s, default_item_path())
            }
        }
    }
}

/// Split a service descriptor into (bus address, object path).
///
/// Accepted shapes: a unique address with a path (`:1.90/StatusNotifierItem`), split at
/// the first `/` with everything before it kept as the address; a well-known name alone
/// (`org.kde.StatusNotifierItem-1-1`); or a well-known name and a path joined by `:` or
/// directly (`org.kde.StatusNotifierItem-1-1:/StatusNotifierItem`). Without a path the
/// default `/StatusNotifierItem` is used.
pub fn parse_service_string(service: &str) -> (r: (String, String))
    ensures
        (r.0@, r.1@) == service_parts(service@),
{
    let n = service.unicode_len();
    if n > 0 && service.get_char(0) == ':' {
        match find_char(service, '/') {
            Some(p) => {
                let a = service.substring_char(0, p);
                let path = service.substring_char(p, n);
                return (a.to_owned(), path.to_owned());
            },
            None => {
                return (service.to_owned(), String::from_str("/StatusNotifierItem"));
            },
        }
    }
    match find_pair(service, ':', '/') {
        Some(q) => {
            let a = service.substring_char(0, q);
            let path = service.substring_char(q + 1, n);
            (a.to_owned(), path.to_owned())
        },
        None => match find_char(service, '/') {
            Some(p) => {
                let a = service.substring_char(0, p);
                let path = service.substring_char(p, n);
                (a.to_owned(), path.to_owned())
            },
            None => (service.to_owned(), String::from_str("/StatusNotifierItem")),
        },
    }
}

/// The first non-empty of an optional string and a fallback.
pub open spec fn first_non_empty(a: Option<Seq<char>>, b: Option<Seq<char>>) -> Option<Seq<char>> {
    if a matches Some(t) && t.len() > 0 {
        a
    } else if b matches Some(t) && t.len() > 0 {
        b
    } else {
        None
    }
}

/// The tooltip text of an item: the tooltip's title, or its description when the title is
/// missing or empty; nothing when both are missing or empty.
pub fn tooltip_text(title: Option<String>, description: Option<String>) -> (r: Option<String>)
    ensures
        opt_view(r) == first_non_empty(opt_view(title), opt_view(description)),
{
    if let Some(t) = title {
        if t.unicode_len() > 0 {
            return Some(t);
        }
    }
    if let Some(d) = description {
        if d.unicode_len() > 0 {
            return Some(d);
        }
    }
    None
}

/// An icon bitmap offered by an item.
#[derive(Debug)]
pub struct Pixmap {
    pub width: i32,
    pub height: i32,
    /// ARGB32 pixel data.
    pub data: Vec<u8>,
}

/// The pixel count of a bitmap.
pub open spec fn area(p: Pixmap) -> int {
    p.width as int * p.height as int
}

/// Whether `s[i]` has the largest area of `s`, and no later bitmap has as large an area.
pub open spec fn largest_at(s: Seq<Pixmap>, i: int) -> bool {
    &&& 0 <= i < s.len()
    &&& forall|j: int| 0 <= j < s.len() ==> area(#[trigger] s[j]) <= area(s[i])
    &&& forall|j: int| i < j < s.len() ==> area(#[trigger] s[j]) < area(s[i])
}

/// Pick the bitmap with the largest width times height (the last such one on a tie):
/// its data, width and height; nothing and zero sizes when none is offered.
pub fn largest_pixmap(pixmaps: Vec<Pixmap>) -> (r: (Option<Vec<u8>>, u32, u32))
    ensures
        pixmaps@.len() == 0 ==> r.0 is None && r.1 == 0 && r.2 == 0,
        pixmaps@.len() > 0 ==> exists|i: int| {
            &&& largest_at(pixmaps@, i)
            &&& opt_bytes_view(r.0) == Some(#[trigger] pixmaps@[i].data@)
            &&& r.1 == pixmaps@[i].width as u32
            &&& r.2 == pixmaps@[i].height as u32
        },
{
    let mut pixmaps = pixmaps;
    let n = pixmaps.len();
    if n == 0 {
        return (None, 0, 0);
    }
    let mut best: usize = 0;
    let w0 = pixmaps[0].width as i64;
    let h0 = pixmaps[0].height as i64;
    assert(-4611686018427387904 <= w0 * h0 <= 4611686018427387904) by (nonlinear_arith)
        requires
            -2147483648 <= w0 <= 2147483647,
            -2147483648 <= h0 <= 2147483647,
    ;
    let mut best_area: i64 = w0 * h0;
    let mut i: usize = 1;
    while i < n
        invariant
            n == pixmaps@.len(),
            1 <= i <= n,
            best < i,
            best_area == area(pixmaps@[best as int]),
            forall|j: int| 0 <= j < i ==> area(#[trigger] pixmaps@[j]) <= best_area,
            forall|j: int| best < j < i ==> area(#[trigger] pixmaps@[j]) < best_area,
        decreases n - i,
    {
        let w = pixmaps[i].width as i64;
        let h = pixmaps[i].height as i64;
        assert(-2147483648 <= w <= 2147483647 && -2147483648 <= h <= 2147483647);
        assert(-4611686018427387904 <= w * h <= 4611686018427387904) by (nonlinear_arith)
            requires
                -2147483648 <= w <= 2147483647,
                -2147483648 <= h <= 2147483647,
        ;
        let a = w * h;
        if a >= best_area {
            best = i;
            best_area = a;
        }
        i = i + 1;
    }
    let ghost all = pixmaps@;
    let p = pixmaps.remove(best);
    assert(p == all[best as int]);
    let width = #[verifier::truncate] (p.width as u32);
    let height = #[verifier::truncate] (p.height as u32);
    assert(largest_at(all, best as int));
    let r = (Some(p.data), width, height);
    assert(opt_bytes_view(r.0) == Some(all[best as int].data@));
    r
}

/// Properties read from an item's endpoint; a read that failed is `None`.
#[derive(Debug)]
pub struct ItemProperties {
    pub id: Option<String>,
    pub title: Option<String>,
    pub status: Option<String>,
    pub category: Option<String>,
    pub icon_name: Option<String>,
    pub icon_pixmaps: Vec<Pixmap>,
    pub tooltip_title: Option<String>,
    pub tooltip_description: Option<String>,
    pub menu_path: Option<String>,
    pub item_is_menu: Option<bool>,
}

/// The string read, or the given default when the read failed.
pub open spec fn or_default(o: Option<String>, d: Seq<char>) -> Seq<char> {
    match o {
        Some(s) => s@,
        None => d,
    }
}

fn string_or(o: Option<String>, d: String) -> (r: String)
    ensures
        r@ == or_default(o, d@),
{
    match o {
        Some(s) => s,
        None => d,
    }
}

/// Build the cache entry for a discovered item from its properties, defaulting each
/// failed read: title to the item's own id (itself defaulting to the service descriptor),
/// status to "Active", category to "ApplicationStatus", an empty icon name to none.
pub fn tray_item_from_properties(
    service: &str,
    bus_name: &str,
    object_path: &str,
    props: ItemProperties,
) -> (r: TrayItem)
    ensures
        r.id@ == service@,
        r.bus_name@ == bus_name@,
        r.object_path@ == object_path@,
        r.title@ == or_default(props.title, or_default(props.id, service@)),
        r.status == status_from_lower(lower_of(or_default(props.status, "Active"@))),
        r.category == category_from_lower(lower_of(or_default(props.category, "ApplicationStatus"@))),
        opt_view(r.icon_name) == first_non_empty(opt_view(props.icon_name), None),
        props.icon_pixmaps@.len() == 0 ==> r.icon_pixmap is None && r.icon_width == 0 && r.icon_height == 0,
        props.icon_pixmaps@.len() > 0 ==> exists|i: int| {
            &&& largest_at(props.icon_pixmaps@, i)
            &&& opt_bytes_view(r.icon_pixmap) == Some(#[trigger] props.icon_pixmaps@[i].data@)
            &&& r.icon_width == props.icon_pixmaps@[i].width as u32
            &&& r.icon_height == props.icon_pixmaps@[i].height as u32
        },
        opt_view(r.tooltip) == first_non_empty(opt_view(props.tooltip_title), opt_view(props.tooltip_description)),
        opt_view(r.menu_path) == opt_view(props.menu_path),
        r.has_menu == props.menu_path is Some,
        r.item_is_menu == match props.item_is_menu {
            Some(b) => b,
            None => false,
        },
{
    let ItemProperties {
        id,
        title,
        status,
        category,
        icon_name,
        icon_pixmaps,
        tooltip_title,
        tooltip_description,
        menu_path,
        item_is_menu,
    } = props;
    let own_id = string_or(id, service.to_owned());
    let title = string_or(title, own_id);
    let status_str = string_or(status, String::from_str("Active"));
    let category_str = string_or(category, String::from_str("ApplicationStatus"));
    let icon_name = tooltip_text(icon_name, None);
    let (icon_pixmap, icon_width, icon_height) = largest_pixmap(icon_pixmaps);
    let tooltip = tooltip_text(tooltip_title, tooltip_description);
    let has_menu = menu_path.is_some();
    let item_is_menu = match item_is_menu {
        Some(b) => b,
        None => false,
    };
    TrayItem {
        id: service.to_owned(),
        bus_name: bus_name.to_owned(),
        object_path: object_path.to_owned(),
        title,
        icon_name,
        icon_pixmap,
        icon_width,
        icon_height,
        tooltip,
        status: ItemStatus::from_str(status_str.as_str()),
        has_menu,
        menu_path,
        item_is_menu,
        category: ItemCategory::from_str(category_str.as_str()),
    }
}

/// The endpoint (bus address, object path) that commands for item `id` go to.
pub fn item_endpoint(cache: &ItemCache, id: &str) -> (r: Result<(String, String), HostError>)
    requires
        cache.wf(),
    ensures
        r is Ok <==> cache@.contains_key(id@),
        r matches Ok((b, p)) ==> b@ == cache@[id@].bus_name && p@ == cache@[id@].object_path,
        r matches Err(e) ==> e == HostError::NotFound,
{
    match cache.get(id) {
        Some(item) => Ok((item.bus_name, item.object_path)),
        None => Err(HostError::NotFound),
    }
}

/// React to a change of owner of a bus name: when the name lost its owner, every item whose
/// origin is that address is removed and returned; otherwise nothing changes.
pub fn on_name_owner_changed(cache: &mut ItemCache, name: &str, new_owner: Option<&str>) -> (r: Vec<TrayItem>)
    requires
        old(cache).wf(),
    ensures
        final(cache).wf(),
        ({
            let vanished = match new_owner {
                Some(o) => o@.len() == 0,
                None => true,
            };
            &&& !vanished ==> final(cache)@ == old(cache)@ && final(cache).pending() == old(cache).pending() && r@.len() == 0
            &&& vanished ==> {
                &&& forall|k: Seq<char>| #[trigger] final(cache)@.contains_key(k) <==>
                    old(cache)@.contains_key(k) && old(cache)@[k].bus_name != name@
                &&& forall|k: Seq<char>| #[trigger] final(cache)@.contains_key(k) ==> final(cache)@[k] == old(cache)@[k]
                &&& forall|k: Seq<char>| old(cache)@.contains_key(k) && #[trigger] old(cache)@[k].bus_name == name@
                    ==> exists|a: int| 0 <= a < r@.len() && #[trigger] r@[a].id@ == k
                &&& forall|a: int| 0 <= a < r@.len() ==> old(cache)@.contains_key(#[trigger] r@[a].id@)
                    && old(cache)@[r@[a].id@] == r@[a]@
            }
        }),
{
    let vanished = match new_owner {
        Some(o) => o.unicode_len() == 0,
        None => true,
    };
    if vanished {
        cache.remove_by_bus_name(name)
    } else {
        Vec::new()
    }
}

} // verus!
