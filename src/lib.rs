//! Core of a status-indicator aggregation daemon: the indicator item cache with change
//! events, the registry and host sides of the icon-source protocol, the remote menu
//! parser, and the module registry that reconciles running modules with the
//! configuration, orders their merged items and routes commands to them.

use vstd::prelude::*;

pub mod cache;
pub mod config;
pub mod dto;
pub mod host;
pub mod item;
pub mod menu;
pub mod modules;
pub mod notifications;
pub mod power_profiles;
pub mod registry;
pub mod text;
pub mod tray;
pub mod watcher;

verus! {

} // verus!
