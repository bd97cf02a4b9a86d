//! The shared contract of pluggable modules: the items they publish and the events they
//! send.

use vstd::prelude::*;
use crate::text::{copy_opt_bytes, copy_opt_string, opt_bytes_view, opt_view};

verus! {

/// A displayable item published by a module.
#[derive(Debug, Clone)]
pub struct ModuleItem {
    /// `{module}:{local id}`.
    pub id: String,
    /// Name of the module that published the item.
    pub module: String,
    /// Display text.
    pub label: String,
    /// Icon name from the theme (preferred).
    pub icon_name: Option<String>,
    /// Raw ARGB32 icon (fallback).
    pub icon_pixmap: Option<Vec<u8>>,
    pub icon_width: u32,
    pub icon_height: u32,
    pub tooltip: Option<String>,
    /// Actions offered on the item, in order.
    pub actions: Vec<ItemAction>,
}

/// An action offered on a module item.
#[derive(Debug, Clone)]
pub struct ItemAction {
    pub id: String,
    pub label: String,
    /// Whether this action runs on plain activation.
    pub is_default: bool,
}

/// The abstract value of a [`ModuleItem`].
pub struct ModuleItemView {
    pub id: Seq<char>,
    pub module: Seq<char>,
    pub label: Seq<char>,
    pub icon_name: Option<Seq<char>>,
    pub icon_pixmap: Option<Seq<u8>>,
    pub icon_width: u32,
    pub icon_height: u32,
    pub tooltip: Option<Seq<char>>,
    pub actions: Seq<ItemAction>,
}

impl View for ModuleItem {
    type V = ModuleItemView;

    open spec fn view(&self) -> ModuleItemView {
        ModuleItemView {
            id: self.id@,
            module: self.module@,
            label: self.label@,
            icon_name: opt_view(self.icon_name),
            icon_pixmap: opt_bytes_view(self.icon_pixmap),
            icon_width: self.icon_width,
            icon_height: self.icon_height,
            tooltip: opt_view(self.tooltip),
            actions: self.actions@,
        }
    }
}

/// The views of a list of module items.
pub open spec fn item_views(s: Seq<ModuleItem>) -> Seq<ModuleItemView> {
    s.map_values(|m: ModuleItem| m@)
}

impl ItemAction {
    /// A non-default action.
    pub fn new(id: &str, label: &str) -> (r: ItemAction)
        ensures
            r.id@ == id@,
            r.label@ == label@,
            !r.is_default,
    {
        ItemAction { id: id.to_owned(), label: label.to_owned(), is_default: false }
    }

    /// The default action of an item.
    pub fn default_action(id: &str, label: &str) -> (r: ItemAction)
        ensures
            r.id@ == id@,
            r.label@ == label@,
            r.is_default,
    {
        ItemAction { id: id.to_owned(), label: label.to_owned(), is_default: true }
    }

    /// An equal copy.
    pub fn duplicate(&self) -> (r: ItemAction)
        ensures
            r == *self,
    {
        ItemAction { id: self.id.clone(), label: self.label.clone(), is_default: self.is_default }
    }
}

impl ModuleItem {
    /// An item `{module}:{item_id}` of the given module with a label and nothing else.
    pub fn new(module: &str, item_id: &str, label: &str) -> (r: ModuleItem)
        ensures
            r@ == (ModuleItemView {
                id: module@ + ":"@ + item_id@,
                module: module@,
                label: label@,
                icon_name: None,
                icon_pixmap: None,
                icon_width: 0,
                icon_height: 0,
                tooltip: None,
                actions: Seq::empty(),
            }),
    {
        let r = ModuleItem {
            id: String::from_str(module).concat(":").concat(item_id),
            module: module.to_owned(),
            label: label.to_owned(),
            icon_name: None,
            icon_pixmap: None,
            icon_width: 0,
            icon_height: 0,
            tooltip: None,
            actions: Vec::new(),
        };
        assert(r.actions@ =~= Seq::<ItemAction>::empty());
        r
    }

    /// The item with the given icon name.
    pub fn with_icon_name(self, icon_name: &str) -> (r: ModuleItem)
        ensures
            r@ == (ModuleItemView { icon_name: Some(icon_name@), ..self@ }),
    {
        let mut s = self;
        s.icon_name = Some(icon_name.to_owned());
        s
    }

    /// The item with the given tooltip.
    pub fn with_tooltip(self, tooltip: &str) -> (r: ModuleItem)
        ensures
            r@ == (ModuleItemView { tooltip: Some(tooltip@), ..self@ }),
    {
        let mut s = self;
        s.tooltip = Some(tooltip.to_owned());
        s
    }

    /// The item with one more action, after the existing ones.
    pub fn with_action(self, action: ItemAction) -> (r: ModuleItem)
        ensures
            r@ == (ModuleItemView { actions: self@.actions.push(action), ..self@ }),
    {
        let mut s = self;
        s.actions.push(action);
        s
    }

    /// A copy with the same abstract value.
    pub fn duplicate(&self) -> (r: ModuleItem)
        ensures
            r@ == self@,
    {
        let mut actions: Vec<ItemAction> = Vec::new();
        let mut i: usize = 0;
        while i < self.actions.len()
            invariant
                i <= self.actions@.len(),
                actions@ == self.actions@.subrange(0, i as int),
            decreases self.actions@.len() - i,
        {
            actions.push(self.actions[i].duplicate());
            i = i + 1;
            assert(actions@ =~= self.actions@.subrange(0, i as int));
        }
        assert(self.actions@.subrange(0, self.actions@.len() as int) =~= self.actions@);
        ModuleItem {
            id: self.id.clone(),
            module: self.module.clone(),
            label: self.label.clone(),
            icon_name: copy_opt_string(&self.icon_name),
            icon_pixmap: copy_opt_bytes(&self.icon_pixmap),
            icon_width: self.icon_width,
            icon_height: self.icon_height,
            tooltip: copy_opt_string(&self.tooltip),
            actions,
        }
    }
}

/// Urgency of a desktop notification.
#[derive(Debug, Clone, Copy, PartialEq, Eq, Structural)]
pub enum Urgency {
    Low,
    Normal,
    Critical,
}

/// An event sent by a module, or by the registry itself.
#[derive(Debug, Clone)]
pub enum ModuleEvent {
    /// A module's full current item list.
    ItemsUpdated { module_name: String, items: Vec<ModuleItem> },
    /// A module asks for a desktop notification.
    Notification { title: String, body: String, urgency: Urgency },
    /// The configuration was reloaded; clients should refresh.
    ConfigReloaded,
}

/// A read-only projection of a running module.
#[derive(Debug, Clone)]
pub struct ModuleInfo {
    pub name: String,
    pub enabled: bool,
}

} // verus!
