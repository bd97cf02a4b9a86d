//! The indicator item model shared by the cache, the host and the tray module.

use vstd::prelude::*;
use crate::text::{copy_opt_bytes, copy_opt_string, opt_bytes_view, opt_view, str_eq};

verus! {

/// A single status-indicator item discovered on the bus.
#[derive(Debug, Clone)]
pub struct TrayItem {
    /// Unique identifier for this item (typically bus name + object path).
    pub id: String,
    /// Bus address of the application that owns the item.
    pub bus_name: String,
    /// Object path of the item on its owner's connection.
    pub object_path: String,
    /// Display title.
    pub title: String,
    /// Icon name from the icon theme (preferred).
    pub icon_name: Option<String>,
    /// Raw ARGB32 pixmap (fallback when no icon name is set).
    pub icon_pixmap: Option<Vec<u8>>,
    /// Width of the pixmap.
    pub icon_width: u32,
    /// Height of the pixmap.
    pub icon_height: u32,
    /// Tooltip text.
    pub tooltip: Option<String>,
    /// Current status.
    pub status: ItemStatus,
    /// Whether the item exports a menu.
    pub has_menu: bool,
    /// Object path of the menu, if any.
    pub menu_path: Option<String>,
    /// Whether activating the item should open its menu instead.
    pub item_is_menu: bool,
    /// Category of the item.
    pub category: ItemCategory,
}

/// The abstract value of a [`TrayItem`].
pub struct TrayItemView {
    pub id: Seq<char>,
    pub bus_name: Seq<char>,
    pub object_path: Seq<char>,
    pub title: Seq<char>,
    pub icon_name: Option<Seq<char>>,
    pub icon_pixmap: Option<Seq<u8>>,
    pub icon_width: u32,
    pub icon_height: u32,
    pub tooltip: Option<Seq<char>>,
    pub status: ItemStatus,
    pub has_menu: bool,
    pub menu_path: Option<Seq<char>>,
    pub item_is_menu: bool,
    pub category: ItemCategory,
}

impl View for TrayItem {
    type V = TrayItemView;

    open spec fn view(&self) -> TrayItemView {
        TrayItemView {
            id: self.id@,
            bus_name: self.bus_name@,
            object_path: self.object_path@,
            title: self.title@,
            icon_name: opt_view(self.icon_name),
            icon_pixmap: opt_bytes_view(self.icon_pixmap),
            icon_width: self.icon_width,
            icon_height: self.icon_height,
            tooltip: opt_view(self.tooltip),
            status: self.status,
            has_menu: self.has_menu,
            menu_path: opt_view(self.menu_path),
            item_is_menu: self.item_is_menu,
            category: self.category,
        }
    }
}

impl TrayItem {
    /// A copy of the item with the same abstract value.
    pub fn duplicate(&self) -> (r: TrayItem)
        ensures
            r@ == self@,
    {
        TrayItem {
            id: self.id.clone(),
            bus_name: self.bus_name.clone(),
            object_path: self.object_path.clone(),
            title: self.title.clone(),
            icon_name: copy_opt_string(&self.icon_name),
            icon_pixmap: copy_opt_bytes(&self.icon_pixmap),
            icon_width: self.icon_width,
            icon_height: self.icon_height,
            tooltip: copy_opt_string(&self.tooltip),
            status: self.status,
            has_menu: self.has_menu,
            menu_path: copy_opt_string(&self.menu_path),
            item_is_menu: self.item_is_menu,
            category: self.category,
        }
    }
}

/// Status of an indicator item.
#[derive(Debug, Clone, Copy, PartialEq, Eq, Structural)]
pub enum ItemStatus {
    /// The item conveys nothing important and may be hidden.
    Passive,
    /// The item is active and should be shown.
    Active,
    /// The item needs the user's attention.
    NeedsAttention,
}

/// The lower-case form of a string, as `str::to_lowercase` computes it.
pub uninterp spec fn lower_of(s: Seq<char>) -> Seq<char>;

/// Relies on `str::to_lowercase`: the result depends on the characters of `s` alone.
#[verifier::external_body]
fn lowercase(s: &str) -> (r: String)
    ensures
        r@ == lower_of(s@),
{
    s.to_lowercase()
}

/// The status named by an already lower-cased protocol string; anything unknown is passive.
pub open spec fn status_from_lower(l: Seq<char>) -> ItemStatus {
    if l == "active"@ {
        ItemStatus::Active
    } else if l == "needsattention"@ || l == "needs-attention"@ {
        ItemStatus::NeedsAttention
    } else {
        ItemStatus::Passive
    }
}

impl ItemStatus {
    /// Parse a status from an already lower-cased string.
    pub fn from_lowercase(l: &str) -> (r: ItemStatus)
        ensures
            r == status_from_lower(l@),
    {
        if str_eq(l, "active") {
            ItemStatus::Active
        } else if str_eq(l, "needsattention") || str_eq(l, "needs-attention") {
            ItemStatus::NeedsAttention
        } else {
            ItemStatus::Passive
        }
    }

    /// Parse a status string case-insensitively; anything unknown is passive.
    pub fn from_str(s: &str) -> (r: ItemStatus)
        ensures
            r == status_from_lower(lower_of(s@)),
    {
        let l = lowercase(s);
        ItemStatus::from_lowercase(l.as_str())
    }

    /// The protocol name of the status.
    pub fn as_str(&self) -> (r: &'static str)
        ensures
            r@ == match self {
                ItemStatus::Passive => "Passive"@,
                ItemStatus::Active => "Active"@,
                ItemStatus::NeedsAttention => "NeedsAttention"@,
            },
    {
        match self {
            ItemStatus::Passive => "Passive",
            ItemStatus::Active => "Active",
            ItemStatus::NeedsAttention => "NeedsAttention",
        }
    }
}

impl Default for ItemStatus {
    fn default() -> (r: ItemStatus)
        ensures
            r == ItemStatus::Passive,
    {
        ItemStatus::Passive
    }
}

/// Category of an indicator item.
#[derive(Debug, Clone, Copy, PartialEq, Eq, Structural)]
pub enum ItemCategory {
    /// Application status or notifications.
    ApplicationStatus,
    /// Communication (mail, chat).
    Communications,
    /// System services (volume, network, battery).
    SystemServices,
    /// Hardware status (printers, removable media).
    Hardware,
}

/// The category named by an already lower-cased protocol string; anything unknown is
/// application status.
pub open spec fn category_from_lower(l: Seq<char>) -> ItemCategory {
    if l == "communications"@ {
        ItemCategory::Communications
    } else if l == "systemservices"@ || l == "system-services"@ {
        ItemCategory::SystemServices
    } else if l == "hardware"@ {
        ItemCategory::Hardware
    } else {
        ItemCategory::ApplicationStatus
    }
}

impl ItemCategory {
    /// Parse a category from an already lower-cased string.
    pub fn from_lowercase(l: &str) -> (r: ItemCategory)
        ensures
            r == category_from_lower(l@),
    {
        if str_eq(l, "communications") {
            ItemCategory::Communications
        } else if str_eq(l, "systemservices") || str_eq(l, "system-services") {
            ItemCategory::SystemServices
        } else if str_eq(l, "hardware") {
            ItemCategory::Hardware
        } else {
            ItemCategory::ApplicationStatus
        }
    }

    /// Parse a category string case-insensitively; anything unknown is application status.
    pub fn from_str(s: &str) -> (r: ItemCategory)
        ensures
            r == category_from_lower(lower_of(s@)),
    {
        let l = lowercase(s);
        ItemCategory::from_lowercase(l.as_str())
    }

    /// The protocol name of the category.
    pub fn as_str(&self) -> (r: &'static str)
        ensures
            r@ == match self {
                ItemCategory::ApplicationStatus => "ApplicationStatus"@,
                ItemCategory::Communications => "Communications"@,
                ItemCategory::SystemServices => "SystemServices"@,
                ItemCategory::Hardware => "Hardware"@,
            },
    {
        match self {
            ItemCategory::ApplicationStatus => "ApplicationStatus",
            ItemCategory::Communications => "Communications",
            ItemCategory::SystemServices => "SystemServices",
            ItemCategory::Hardware => "Hardware",
        }
    }
}

impl Default for ItemCategory {
    fn default() -> (r: ItemCategory)
        ensures
            r == ItemCategory::ApplicationStatus,
    {
        ItemCategory::ApplicationStatus
    }
}

/// A change notification published by the item cache.
#[derive(Debug, Clone, PartialEq, Eq)]
pub enum CacheEvent {
    /// A new item was added.
    ItemAdded(String),
    /// An item was removed.
    ItemRemoved(String),
    /// An item was updated.
    ItemUpdated(String),
}

/// The abstract value of a [`CacheEvent`].
pub enum CacheEventView {
    Added(Seq<char>),
    Removed(Seq<char>),
    Updated(Seq<char>),
}

impl View for CacheEvent {
    type V = CacheEventView;

    open spec fn view(&self) -> CacheEventView {
        match self {
            CacheEvent::ItemAdded(id) => CacheEventView::Added(id@),
            CacheEvent::ItemRemoved(id) => CacheEventView::Removed(id@),
            CacheEvent::ItemUpdated(id) => CacheEventView::Updated(id@),
        }
    }
}

} // verus!
