//! Flat transport shapes of the library's items, as sent to front-end clients: optional
//! text becomes the empty string and enumerations become their protocol names.

use vstd::prelude::*;
use crate::item::{category_from_lower, lower_of, status_from_lower, ItemCategory, ItemStatus, TrayItem};
use crate::modules::{ItemAction, ModuleInfo, ModuleItem};
use crate::text::{opt_bytes_view, opt_view};

verus! {

/// Transport shape of a [`TrayItem`].
#[derive(Debug, Clone)]
pub struct TrayItemDto {
    pub id: String,
    pub bus_name: String,
    pub object_path: String,
    pub title: String,
    pub icon_name: String,
    pub icon_pixmap: Vec<u8>,
    pub icon_width: u32,
    pub icon_height: u32,
    pub tooltip: String,
    pub status: String,
    pub has_menu: bool,
    pub menu_path: String,
    pub item_is_menu: bool,
    pub category: String,
}

/// Transport shape of a [`ModuleItem`].
#[derive(Debug, Clone)]
pub struct ModuleItemDto {
    pub id: String,
    pub module: String,
    pub label: String,
    pub icon_name: String,
    pub icon_pixmap: Vec<u8>,
    pub icon_width: u32,
    pub icon_height: u32,
    pub tooltip: String,
    pub actions: Vec<ItemActionDto>,
}

/// Transport shape of an [`ItemAction`].
#[derive(Debug, Clone)]
pub struct ItemActionDto {
    pub id: String,
    pub label: String,
    pub is_default: bool,
}

/// Transport shape of a [`ModuleInfo`].
#[derive(Debug, Clone)]
pub struct ModuleInfoDto {
    pub name: String,
    pub enabled: bool,
}

/// Optional text, flattened: none becomes empty.
pub open spec fn flat(o: Option<Seq<char>>) -> Seq<char> {
    match o {
        Some(s) => s,
        None => Seq::empty(),
    }
}

/// Flattened text, lifted back: empty becomes none.
pub open spec fn lifted(s: Seq<char>) -> Option<Seq<char>> {
    if s.len() == 0 { None } else { Some(s) }
}

/// Optional bytes, flattened: none becomes empty.
pub open spec fn flat_bytes(o: Option<Seq<u8>>) -> Seq<u8> {
    match o {
        Some(s) => s,
        None => Seq::empty(),
    }
}

fn flatten(o: Option<String>) -> (r: String)
    ensures
        r@ == flat(opt_view(o)),
{
    match o {
        Some(s) => s,
        None => String::new(),
    }
}

fn lift(s: String) -> (r: Option<String>)
    ensures
        opt_view(r) == lifted(s@),
{
    if s.unicode_len() == 0 { None } else { Some(s) }
}

fn flatten_bytes(o: Option<Vec<u8>>) -> (r: Vec<u8>)
    ensures
        r@ == flat_bytes(opt_bytes_view(o)),
{
    match o {
        Some(b) => b,
        None => Vec::new(),
    }
}

fn lift_bytes(b: Vec<u8>) -> (r: Option<Vec<u8>>)
    ensures
        b@.len() == 0 ==> r is None,
        b@.len() > 0 ==> opt_bytes_view(r) == Some(b@),
{
    if b.len() == 0 { None } else { Some(b) }
}

impl TrayItemDto {
    /// The transport shape of an item.
    pub fn from_item(item: TrayItem) -> (r: TrayItemDto)
        ensures
            r.id@ == item.id@,
            r.bus_name@ == item.bus_name@,
            r.object_path@ == item.object_path@,
            r.title@ == item.title@,
            r.icon_name@ == flat(opt_view(item.icon_name)),
            r.icon_pixmap@ == flat_bytes(opt_bytes_view(item.icon_pixmap)),
            r.icon_width == item.icon_width,
            r.icon_height == item.icon_height,
            r.tooltip@ == flat(opt_view(item.tooltip)),
            r.status@ == match item.status {
                ItemStatus::Passive => "Passive"@,
                ItemStatus::Active => "Active"@,
                ItemStatus::NeedsAttention => "NeedsAttention"@,
            },
            r.has_menu == item.has_menu,
            r.menu_path@ == flat(opt_view(item.menu_path)),
            r.item_is_menu == item.item_is_menu,
            r.category@ == match item.category {
                ItemCategory::ApplicationStatus => "ApplicationStatus"@,
                ItemCategory::Communications => "Communications"@,
                ItemCategory::SystemServices => "SystemServices"@,
                ItemCategory::Hardware => "Hardware"@,
            },
    {
        let status = String::from_str(item.status.as_str());
        let category = String::from_str(item.category.as_str());
        TrayItemDto {
            id: item.id,
            bus_name: item.bus_name,
            object_path: item.object_path,
            title: item.title,
            icon_name: flatten(item.icon_name),
            icon_pixmap: flatten_bytes(item.icon_pixmap),
            icon_width: item.icon_width,
            icon_height: item.icon_height,
            tooltip: flatten(item.tooltip),
            status,
            has_menu: item.has_menu,
            menu_path: flatten(item.menu_path),
            item_is_menu: item.item_is_menu,
            category,
        }
    }

    /// The item a transport shape stands for: empty text is none, names are parsed.
    pub fn into_item(self) -> (r: TrayItem)
        ensures
            r.id@ == self.id@,
            r.bus_name@ == self.bus_name@,
            r.object_path@ == self.object_path@,
            r.title@ == self.title@,
            opt_view(r.icon_name) == lifted(self.icon_name@),
            self.icon_pixmap@.len() == 0 ==> r.icon_pixmap is None,
            self.icon_pixmap@.len() > 0 ==> opt_bytes_view(r.icon_pixmap) == Some(self.icon_pixmap@),
            r.icon_width == self.icon_width,
            r.icon_height == self.icon_height,
            opt_view(r.tooltip) == lifted(self.tooltip@),
            r.status == status_from_lower(lower_of(self.status@)),
            r.has_menu == self.has_menu,
            opt_view(r.menu_path) == lifted(self.menu_path@),
            r.item_is_menu == self.item_is_menu,
            r.category == category_from_lower(lower_of(self.category@)),
    {
        let status = ItemStatus::from_str(self.status.as_str());
        let category = ItemCategory::from_str(self.category.as_str());
        TrayItem {
            id: self.id,
            bus_name: self.bus_name,
            object_path: self.object_path,
            title: self.title,
            icon_name: lift(self.icon_name),
            icon_pixmap: lift_bytes(self.icon_pixmap),
            icon_width: self.icon_width,
            icon_height: self.icon_height,
            tooltip: lift(self.tooltip),
            status,
            has_menu: self.has_menu,
            menu_path: lift(self.menu_path),
            item_is_menu: self.item_is_menu,
            category,
        }
    }
}

impl ItemActionDto {
    /// The transport shape of an action.
    pub fn from_action(a: ItemAction) -> (r: ItemActionDto)
        ensures
            r.id == a.id,
            r.label == a.label,
            r.is_default == a.is_default,
    {
        ItemActionDto { id: a.id, label: a.label, is_default: a.is_default }
    }

    /// The action a transport shape stands for.
    pub fn into_action(self) -> (r: ItemAction)
        ensures
            r.id == self.id,
            r.label == self.label,
            r.is_default == self.is_default,
    {
        ItemAction { id: self.id, label: self.label, is_default: self.is_default }
    }
}

impl ModuleItemDto {
    /// The transport shape of a module item.
    pub fn from_item(item: ModuleItem) -> (r: ModuleItemDto)
        ensures
            r.id@ == item.id@,
            r.module@ == item.module@,
            r.label@ == item.label@,
            r.icon_name@ == flat(opt_view(item.icon_name)),
            r.icon_pixmap@ == flat_bytes(opt_bytes_view(item.icon_pixmap)),
            r.icon_width == item.icon_width,
            r.icon_height == item.icon_height,
            r.tooltip@ == flat(opt_view(item.tooltip)),
            r.actions@.len() == item.actions@.len(),
            forall|i: int| 0 <= i < r.actions@.len() ==> (#[trigger] r.actions@[i]).id == item.actions@[i].id
                && r.actions@[i].label == item.actions@[i].label
                && r.actions@[i].is_default == item.actions@[i].is_default,
    {
        let ModuleItem { id, module, label, icon_name, icon_pixmap, icon_width, icon_height, tooltip, actions } = item;
        let mut src = actions;
        let ghost all = src@;
        let mut out: Vec<ItemActionDto> = Vec::new();
        let n = src.len();
        let mut i: usize = 0;
        while i < n
            invariant
                n == all.len(),
                i <= n,
                src@ == all.subrange(i as int, n as int),
                out@.len() == i,
                forall|k: int| 0 <= k < i ==> (#[trigger] out@[k]).id == all[k].id && out@[k].label == all[k].label
                    && out@[k].is_default == all[k].is_default,
            decreases n - i,
        {
            let a = src.remove(0);
            assert(src@ =~= all.subrange(i as int + 1, n as int));
            out.push(ItemActionDto::from_action(a));
            i = i + 1;
        }
        ModuleItemDto {
            id,
            module,
            label,
            icon_name: flatten(icon_name),
            icon_pixmap: flatten_bytes(icon_pixmap),
            icon_width,
            icon_height,
            tooltip: flatten(tooltip),
            actions: out,
        }
    }
}

impl ModuleInfoDto {
    /// The transport shape of a module description.
    pub fn from_info(info: ModuleInfo) -> (r: ModuleInfoDto)
        ensures
            r.name == info.name,
            r.enabled == info.enabled,
    {
        ModuleInfoDto { name: info.name, enabled: info.enabled }
    }
}

} // verus!
