//! The remote menu client's parser: turns a fetched menu layout into a tree of visible
//! menu items, bounded in depth.

use vstd::prelude::*;
use crate::text::{opt_view, push_char, str_eq};

verus! {

/// Deepest level of nesting accepted in a fetched menu; the root is at level 0.
pub const MAX_MENU_DEPTH: usize = 10;

/// A property value of a menu node, as far as the parser reads it.
#[derive(Debug, Clone)]
pub enum PropValue {
    Str(String),
    Bool(bool),
    Int(i32),
    /// A value of any other type; the parser ignores it.
    Other,
}

/// One node of a fetched menu layout: its id, its properties and its children.
#[derive(Debug)]
pub struct MenuLayout {
    pub id: i32,
    pub properties: Vec<(String, PropValue)>,
    pub children: Vec<MenuLayout>,
}

/// A parsed menu item.
#[derive(Debug)]
pub struct MenuItem {
    /// Protocol-scoped id of the node.
    pub id: i32,
    /// Display label, mnemonic markers removed.
    pub label: String,
    /// Whether the item can be activated.
    pub enabled: bool,
    /// Whether the item is shown.
    pub visible: bool,
    /// "standard" or "separator".
    pub item_type: String,
    /// Icon name from the theme.
    pub icon_name: Option<String>,
    /// "checkmark" or "radio", if the item toggles.
    pub toggle_type: Option<String>,
    /// -1 off, 0 indeterminate, 1 on.
    pub toggle_state: i32,
    /// Visible child items, in order.
    pub children: Vec<MenuItem>,
}

/// Why a menu could not be parsed.
#[derive(Debug, Clone, Copy, PartialEq, Eq, Structural)]
pub enum MenuError {
    /// The layout nests deeper than [`MAX_MENU_DEPTH`].
    DepthExceeded,
}

impl Default for MenuItem {
    fn default() -> (r: MenuItem)
        ensures
            r.id == 0,
            r.label@ == Seq::<char>::empty(),
            r.enabled,
            r.visible,
            r.item_type@ == "standard"@,
            r.icon_name is None,
            r.toggle_type is None,
            r.toggle_state == -1,
            r.children@.len() == 0,
    {
        MenuItem {
            id: 0,
            label: String::new(),
            enabled: true,
            visible: true,
            item_type: String::from_str("standard"),
            icon_name: None,
            toggle_type: None,
            toggle_state: -1,
            children: Vec::new(),
        }
    }
}

/// The label with every mnemonic marker (`_`) deleted.
pub open spec fn strip_mnemonics_spec(s: Seq<char>) -> Seq<char>
    decreases s.len(),
{
    if s.len() == 0 {
        Seq::empty()
    } else if s.last() == '_' {
        strip_mnemonics_spec(s.drop_last())
    } else {
        strip_mnemonics_spec(s.drop_last()).push(s.last())
    }
}

/// Delete every mnemonic marker (`_`) from a label.
pub fn strip_mnemonics(s: &str) -> (r: String)
    ensures
        r@ == strip_mnemonics_spec(s@),
{
    let n = s.unicode_len();
    let mut r = String::new();
    let mut i: usize = 0;
    while i < n
        invariant
            n == s@.len(),
            i <= n,
            r@ == strip_mnemonics_spec(s@.subrange(0, i as int)),
        decreases n - i,
    {
        let c = s.get_char(i);
        assert(s@.subrange(0, i as int + 1).drop_last() =~= s@.subrange(0, i as int));
        if c != '_' {
            push_char(&mut r, c);
        }
        i = i + 1;
    }
    assert(s@.subrange(0, n as int) =~= s@);
    r
}

/// The last string value given for `key`, if any.
pub open spec fn last_str(props: Seq<(String, PropValue)>, key: Seq<char>) -> Option<Seq<char>>
    decreases props.len(),
{
    if props.len() == 0 {
        None
    } else if props.last().0@ == key && props.last().1 is Str {
        Some(props.last().1->Str_0@)
    } else {
        last_str(props.drop_last(), key)
    }
}

/// The last boolean value given for `key`, if any.
pub open spec fn last_bool(props: Seq<(String, PropValue)>, key: Seq<char>) -> Option<bool>
    decreases props.len(),
{
    if props.len() == 0 {
        None
    } else if props.last().0@ == key && props.last().1 is Bool {
        Some(props.last().1->Bool_0)
    } else {
        last_bool(props.drop_last(), key)
    }
}

/// The last integer value given for `key`, if any.
pub open spec fn last_int(props: Seq<(String, PropValue)>, key: Seq<char>) -> Option<i32>
    decreases props.len(),
{
    if props.len() == 0 {
        None
    } else if props.last().0@ == key && props.last().1 is Int {
        Some(props.last().1->Int_0)
    } else {
        last_int(props.drop_last(), key)
    }
}

/// A non-empty string, or nothing.
pub open spec fn non_empty(s: Option<Seq<char>>) -> Option<Seq<char>> {
    match s {
        Some(t) => if t.len() > 0 { Some(t) } else { None },
        None => None,
    }
}

pub open spec fn label_of(props: Seq<(String, PropValue)>) -> Seq<char> {
    match last_str(props, "label"@) {
        Some(l) => strip_mnemonics_spec(l),
        None => Seq::empty(),
    }
}

pub open spec fn enabled_of(props: Seq<(String, PropValue)>) -> bool {
    match last_bool(props, "enabled"@) {
        Some(b) => b,
        None => true,
    }
}

pub open spec fn visible_of(props: Seq<(String, PropValue)>) -> bool {
    match last_bool(props, "visible"@) {
        Some(b) => b,
        None => true,
    }
}

pub open spec fn type_of(props: Seq<(String, PropValue)>) -> Seq<char> {
    match last_str(props, "type"@) {
        Some(t) => t,
        None => "standard"@,
    }
}

pub open spec fn icon_of(props: Seq<(String, PropValue)>) -> Option<Seq<char>> {
    non_empty(last_str(props, "icon-name"@))
}

pub open spec fn toggle_type_of(props: Seq<(String, PropValue)>) -> Option<Seq<char>> {
    non_empty(last_str(props, "toggle-type"@))
}

pub open spec fn toggle_state_of(props: Seq<(String, PropValue)>) -> i32 {
    match last_int(props, "toggle-state"@) {
        Some(v) => v,
        None => -1i32,
    }
}

/// Whether no node of the layout, with the layout's root at level `level`, lies deeper
/// than [`MAX_MENU_DEPTH`].
pub open spec fn within_depth(l: MenuLayout, level: int) -> bool
    decreases l,
{
    &&& level <= MAX_MENU_DEPTH
    &&& forall|i: int| 0 <= i < l.children@.len() ==> within_depth(#[trigger] l.children@[i], level + 1)
}

/// Positions of the visible nodes among `c`, in order.
pub open spec fn visible_positions(c: Seq<MenuLayout>) -> Seq<int>
    decreases c.len(),
{
    if c.len() == 0 {
        Seq::empty()
    } else if visible_of(c.last().properties@) {
        visible_positions(c.drop_last()).push(c.len() - 1)
    } else {
        visible_positions(c.drop_last())
    }
}

/// Whether `m` is the parse of layout node `l`: its fields read from `l`'s properties and
/// its children the parses of `l`'s visible children, in order.
pub open spec fn parsed(l: MenuLayout, m: MenuItem) -> bool
    decreases l,
{
    let props = l.properties@;
    let pos = visible_positions(l.children@);
    &&& m.id == l.id
    &&& m.label@ == label_of(props)
    &&& m.enabled == enabled_of(props)
    &&& m.visible == visible_of(props)
    &&& m.item_type@ == type_of(props)
    &&& opt_view(m.icon_name) == icon_of(props)
    &&& opt_view(m.toggle_type) == toggle_type_of(props)
    &&& m.toggle_state == toggle_state_of(props)
    &&& m.children@.len() == pos.len()
    &&& forall|i: int| 0 <= i < pos.len() ==> {
        &&& 0 <= #[trigger] pos[i] < l.children@.len()
        &&& parsed(l.children@[pos[i]], m.children@[i])
    }
}

proof fn lemma_visible_positions_step(c: Seq<MenuLayout>, i: int)
    requires
        0 <= i < c.len(),
    ensures
        c.subrange(0, i + 1).drop_last() == c.subrange(0, i),
        visible_positions(c.subrange(0, i + 1)) == if visible_of(c[i].properties@) {
            visible_positions(c.subrange(0, i)).push(i)
        } else {
            visible_positions(c.subrange(0, i))
        },
{
    assert(c.subrange(0, i + 1).drop_last() =~= c.subrange(0, i));
}

proof fn lemma_visible_positions_bound(c: Seq<MenuLayout>)
    ensures
        forall|i: int| 0 <= i < visible_positions(c).len() ==> 0 <= #[trigger] visible_positions(c)[i] < c.len(),
    decreases c.len(),
{
    if c.len() > 0 {
        let prev = c.drop_last();
        lemma_visible_positions_bound(prev);
        assert forall|i: int| 0 <= i < visible_positions(c).len() implies 0 <= #[trigger] visible_positions(c)[i] < c.len() by {
            if i < visible_positions(prev).len() {
                assert(visible_positions(c)[i] == visible_positions(prev)[i]);
            }
        }
    }
}

/// Whether every item below `m`, at any depth, is visible.
pub open spec fn all_below_visible(m: MenuItem) -> bool
    decreases m,
{
    forall|i: int| 0 <= i < m.children@.len() ==> {
        &&& (#[trigger] m.children@[i]).visible
        &&& all_below_visible(m.children@[i])
    }
}

proof fn lemma_visible_positions_visible(c: Seq<MenuLayout>)
    ensures
        forall|i: int| 0 <= i < visible_positions(c).len() ==> visible_of(c[#[trigger] visible_positions(c)[i]].properties@),
    decreases c.len(),
{
    if c.len() > 0 {
        let prev = c.drop_last();
        lemma_visible_positions_visible(prev);
        lemma_visible_positions_bound(prev);
        assert forall|i: int| 0 <= i < visible_positions(c).len() implies visible_of(c[#[trigger] visible_positions(c)[i]].properties@) by {
            if i < visible_positions(prev).len() {
                assert(visible_positions(c)[i] == visible_positions(prev)[i]);
                assert(c[visible_positions(prev)[i]] == prev[visible_positions(prev)[i]]);
            }
        }
    }
}

/// Invisible nodes never reach a parsed menu: in the parse of any layout, every item below
/// the root, at any depth, is visible, so an invisible node's whole subtree is absent
/// whatever the visibility of its descendants.
pub proof fn lemma_parsed_items_visible(l: MenuLayout, m: MenuItem)
    requires
        parsed(l, m),
    ensures
        all_below_visible(m),
    decreases l,
{
    let pos = visible_positions(l.children@);
    lemma_visible_positions_visible(l.children@);
    assert forall|i: int| 0 <= i < m.children@.len() implies {
        &&& (#[trigger] m.children@[i]).visible
        &&& all_below_visible(m.children@[i])
    } by {
        assert(0 <= pos[i] < l.children@.len());
        assert(parsed(l.children@[pos[i]], m.children@[i]));
        lemma_parsed_items_visible(l.children@[pos[i]], m.children@[i]);
    }
}

/// An invisible node contributes nothing to a parsed menu: in the parse of `l`, no item
/// is the parse of an invisible child of `l`, so that child and its whole subtree are
/// absent, whatever the visibility of its descendants.
pub proof fn lemma_invisible_child_absent(l: MenuLayout, m: MenuItem, j: int)
    requires
        parsed(l, m),
        0 <= j < l.children@.len(),
        !visible_of(l.children@[j].properties@),
    ensures
        forall|i: int| 0 <= i < m.children@.len() ==> #[trigger] visible_positions(l.children@)[i] != j,
{
    lemma_visible_positions_visible(l.children@);
}

/// Parse one layout node at nesting level `level`.
fn parse_menu_item(layout: &MenuLayout, level: usize) -> (r: Result<MenuItem, MenuError>)
    ensures
        r is Ok <==> within_depth(*layout, level as int),
        level > MAX_MENU_DEPTH ==> (r matches Err(e) && e == MenuError::DepthExceeded),
        r matches Ok(m) ==> parsed(*layout, m),
    decreases layout,
{
    if level > MAX_MENU_DEPTH {
        return Err(MenuError::DepthExceeded);
    }
    let mut item = MenuItem::default();
    item.id = layout.id;
    let props = &layout.properties;
    let mut i: usize = 0;
    while i < props.len()
        invariant
            i <= props@.len(),
            item.id == layout.id,
            item.children@.len() == 0,
            item.label@ == label_of(props@.subrange(0, i as int)),
            item.enabled == enabled_of(props@.subrange(0, i as int)),
            item.visible == visible_of(props@.subrange(0, i as int)),
            item.item_type@ == type_of(props@.subrange(0, i as int)),
            opt_view(item.icon_name) == icon_of(props@.subrange(0, i as int)),
            opt_view(item.toggle_type) == toggle_type_of(props@.subrange(0, i as int)),
            item.toggle_state == toggle_state_of(props@.subrange(0, i as int)),
        decreases props@.len() - i,
    {
        let key = props[i].0.as_str();
        proof {
            reveal_strlit("label");
            reveal_strlit("type");
            reveal_strlit("icon-name");
            reveal_strlit("toggle-type");
            reveal_strlit("enabled");
            reveal_strlit("visible");
            reveal_strlit("toggle-state");
            assert("enabled"@[0] != "visible"@[0]);
            assert("label"@.len() != "type"@.len());
            assert("label"@.len() != "icon-name"@.len());
            assert("label"@.len() != "toggle-type"@.len());
            assert("type"@.len() != "icon-name"@.len());
            assert("type"@.len() != "toggle-type"@.len());
            assert("icon-name"@.len() != "toggle-type"@.len());
        }
        assert(props@.subrange(0, i as int + 1).drop_last() =~= props@.subrange(0, i as int));
        assert(props@.subrange(0, i as int + 1).last() == props@[i as int]);
        match &props[i].1 {
            PropValue::Str(v) => {
                if str_eq(key, "label") {
                    item.label = strip_mnemonics(v.as_str());
                } else if str_eq(key, "type") {
                    item.item_type = v.clone();
                } else if str_eq(key, "icon-name") {
                    item.icon_name = if v.unicode_len() > 0 { Some(v.clone()) } else { None };
                } else if str_eq(key, "toggle-type") {
                    item.toggle_type = if v.unicode_len() > 0 { Some(v.clone()) } else { None };
                }
            },
            PropValue::Bool(b) => {
                if str_eq(key, "enabled") {
                    item.enabled = *b;
                } else if str_eq(key, "visible") {
                    item.visible = *b;
                }
            },
            PropValue::Int(v) => {
                if str_eq(key, "toggle-state") {
                    item.toggle_state = *v;
                }
            },
            PropValue::Other => {},
        }
        i = i + 1;
    }
    assert(props@.subrange(0, props@.len() as int) =~= props@);
    let children = &layout.children;
    let mut j: usize = 0;
    while j < children.len()
        invariant
            level <= MAX_MENU_DEPTH,
            j <= children@.len(),
            children == layout.children,
            ({
                let p = layout.properties@;
                &&& item.id == layout.id
                &&& item.label@ == label_of(p)
                &&& item.enabled == enabled_of(p)
                &&& item.visible == visible_of(p)
                &&& item.item_type@ == type_of(p)
                &&& opt_view(item.icon_name) == icon_of(p)
                &&& opt_view(item.toggle_type) == toggle_type_of(p)
                &&& item.toggle_state == toggle_state_of(p)
            }),
            forall|k: int| 0 <= k < j ==> within_depth(#[trigger] children@[k], level + 1),
            ({
                let pos = visible_positions(children@.subrange(0, j as int));
                &&& item.children@.len() == pos.len()
                &&& forall|k: int| 0 <= k < pos.len() ==> {
                    &&& 0 <= #[trigger] pos[k] < j
                    &&& parsed(children@[pos[k]], item.children@[k])
                }
            }),
        decreases children@.len() - j,
    {
        let ghost before = item.children@;
        let child = parse_menu_item(&children[j], level + 1);
        match child {
            Ok(c) => {
                proof {
                    lemma_visible_positions_step(children@, j as int);
                    lemma_visible_positions_bound(children@.subrange(0, j as int));
                }
                if c.visible {
                    item.children.push(c);
                    proof {
                        let pos = visible_positions(children@.subrange(0, j as int + 1));
                        assert forall|k: int| 0 <= k < pos.len() implies {
                            &&& 0 <= #[trigger] pos[k] < j + 1
                            &&& parsed(children@[pos[k]], item.children@[k])
                        } by {
                            if k < before.len() {
                                assert(item.children@[k] == before[k]);
                            }
                        }
                    }
                }
                j = j + 1;
            },
            Err(e) => {
                return Err(e);
            },
        }
    }
    proof {
        assert(children@.subrange(0, children@.len() as int) =~= children@);
    }
    Ok(item)
}

/// Parse a fetched layout into the root's visible children. Fails as a whole when any node
/// lies deeper than [`MAX_MENU_DEPTH`], whether visible or not.
pub fn parse_menu_layout(layout: &MenuLayout) -> (r: Result<Vec<MenuItem>, MenuError>)
    ensures
        r is Ok <==> within_depth(*layout, 0),
        r matches Ok(items) ==> exists|root: MenuItem| parsed(*layout, root) && root.children@ == items@,
        r matches Err(e) ==> e == MenuError::DepthExceeded,
{
    match parse_menu_item(layout, 0) {
        Ok(root) => {
            let ghost g = root;
            let items = root.children;
            assert(parsed(*layout, g) && g.children@ == items@);
            Ok(items)
        },
        Err(e) => Err(e),
    }
}

} // verus!
