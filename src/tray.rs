//! The tray module's own logic: how cached indicator items become module items, and which
//! item command an action id names.

use vstd::prelude::*;
use crate::item::TrayItem;
use crate::modules::{ItemAction, ModuleItem};
use crate::text::{copy_opt_bytes, copy_opt_string, opt_bytes_view, opt_view, str_eq};

verus! {

/// An action as (id, label, is default).
pub open spec fn action_view(a: ItemAction) -> (Seq<char>, Seq<char>, bool) {
    (a.id@, a.label@, a.is_default)
}

/// The views of a list of actions.
pub open spec fn action_views(s: Seq<ItemAction>) -> Seq<(Seq<char>, Seq<char>, bool)> {
    s.map_values(|a: ItemAction| action_view(a))
}

/// The actions offered on a tray item: a menu-only item offers only its menu, as the
/// default; any other item offers activation (the default) and secondary activation, and
/// also its menu when it has one.
pub open spec fn tray_actions(item_is_menu: bool, has_menu: bool) -> Seq<(Seq<char>, Seq<char>, bool)> {
    if item_is_menu {
        seq![("context_menu"@, "Show Menu"@, true)]
    } else if has_menu {
        seq![
            ("activate"@, "Activate"@, true),
            ("secondary_activate"@, "Secondary Action"@, false),
            ("context_menu"@, "Show Menu"@, false),
        ]
    } else {
        seq![("activate"@, "Activate"@, true), ("secondary_activate"@, "Secondary Action"@, false)]
    }
}

/// Whether `m` is the module item that shows tray item `item`: id `tray:{id}`, module
/// `tray`, the title as label, the same icon and tooltip, and the actions the item supports.
pub open spec fn shows_tray_item(m: ModuleItem, item: TrayItem) -> bool {
    &&& m.id@ == "tray:"@ + item.id@
    &&& m.module@ == "tray"@
    &&& m.label@ == item.title@
    &&& opt_view(m.icon_name) == opt_view(item.icon_name)
    &&& opt_bytes_view(m.icon_pixmap) == opt_bytes_view(item.icon_pixmap)
    &&& m.icon_width == item.icon_width
    &&& m.icon_height == item.icon_height
    &&& opt_view(m.tooltip) == opt_view(item.tooltip)
    &&& action_views(m.actions@) == tray_actions(item.item_is_menu, item.has_menu)
}

/// The module item that shows a cached tray item: id `tray:{id}`, the title as label, the
/// same icon and tooltip, and the actions the item supports.
pub fn tray_item_to_module_item(item: &TrayItem) -> (r: ModuleItem)
    ensures
        shows_tray_item(r, *item),
{
    let mut actions: Vec<ItemAction> = Vec::new();
    if item.item_is_menu {
        actions.push(ItemAction::default_action("context_menu", "Show Menu"));
    } else {
        actions.push(ItemAction::default_action("activate", "Activate"));
        actions.push(ItemAction::new("secondary_activate", "Secondary Action"));
        if item.has_menu {
            actions.push(ItemAction::new("context_menu", "Show Menu"));
        }
    }
    assert(action_views(actions@) =~= tray_actions(item.item_is_menu, item.has_menu));
    ModuleItem {
        id: String::from_str("tray:").concat(item.id.as_str()),
        module: String::from_str("tray"),
        label: item.title.clone(),
        icon_name: copy_opt_string(&item.icon_name),
        icon_pixmap: copy_opt_bytes(&item.icon_pixmap),
        icon_width: item.icon_width,
        icon_height: item.icon_height,
        tooltip: copy_opt_string(&item.tooltip),
        actions,
    }
}

/// The module items for a list of cached tray items, in the same order.
pub fn tray_items_to_module_items(items: &Vec<TrayItem>) -> (r: Vec<ModuleItem>)
    ensures
        r@.len() == items@.len(),
        forall|i: int| 0 <= i < r@.len() ==> shows_tray_item(#[trigger] r@[i], items@[i]),
{
    let mut out: Vec<ModuleItem> = Vec::new();
    let mut i: usize = 0;
    while i < items.len()
        invariant
            i <= items@.len(),
            out@.len() == i,
            forall|k: int| 0 <= k < i ==> shows_tray_item(#[trigger] out@[k], items@[k]),
        decreases items@.len() - i,
    {
        out.push(tray_item_to_module_item(&items[i]));
        i = i + 1;
    }
    out
}

/// A command that the tray module forwards to an item's endpoint.
#[derive(Debug, Clone, Copy, PartialEq, Eq, Structural)]
pub enum TrayCommand {
    Activate,
    SecondaryActivate,
    ContextMenu,
}

/// The command named by an action id, if any.
pub open spec fn command_of(action_id: Seq<char>) -> Option<TrayCommand> {
    if action_id == "activate"@ {
        Some(TrayCommand::Activate)
    } else if action_id == "secondary_activate"@ {
        Some(TrayCommand::SecondaryActivate)
    } else if action_id == "context_menu"@ {
        Some(TrayCommand::ContextMenu)
    } else {
        None
    }
}

impl TrayCommand {
    /// The command named by an action id; unknown actions name none.
    pub fn from_action_id(action_id: &str) -> (r: Option<TrayCommand>)
        ensures
            r == command_of(action_id@),
    {
        if str_eq(action_id, "activate") {
            Some(TrayCommand::Activate)
        } else if str_eq(action_id, "secondary_activate") {
            Some(TrayCommand::SecondaryActivate)
        } else if str_eq(action_id, "context_menu") {
            Some(TrayCommand::ContextMenu)
        } else {
            None
        }
    }
}

} // verus!
