use waytray_daemon::config::{BatteryModuleConfig, Config};
use waytray_daemon::modules::{ItemAction, ModuleEvent, ModuleItem, Urgency};
use waytray_daemon::notifications::{NotificationService, NotificationTimeout};
use waytray_daemon::registry::{ModuleRegistry, RegistryError};

fn names(v: &[&str]) -> Vec<String> {
    v.iter().map(|s| s.to_string()).collect()
}

fn sorted(mut v: Vec<String>) -> Vec<String> {
    v.sort();
    v
}

fn publish(reg: &mut ModuleRegistry, module: &str, local: &str) {
    reg.handle_event(ModuleEvent::ItemsUpdated {
        module_name: module.to_string(),
        items: vec![ModuleItem::new(module, local, local)],
    });
}

#[test]
fn reconcile_stops_starts_and_reloads() {
    let mut reg = ModuleRegistry::new(vec![], NotificationService::new(true, 0));
    reg.sync_with_enabled(&names(&["A", "B"]));
    let plan = reg.sync_with_enabled(&names(&["B", "C"]));
    assert_eq!(plan.stop, names(&["A"]));
    assert_eq!(plan.start, names(&["C"]));
    assert_eq!(plan.reload, names(&["B"]));
    let running: Vec<String> = reg.get_modules().into_iter().map(|m| m.name).collect();
    assert_eq!(sorted(running), names(&["B", "C"]));
}

#[test]
fn reconcile_twice_is_idempotent() {
    let mut reg = ModuleRegistry::new(vec![], NotificationService::default());
    let mut config = Config::default();
    config.modules.battery = Some(BatteryModuleConfig::default());
    let first = reg.sync_modules_with_config(&config);
    assert_eq!(first.start, names(&["tray", "battery"]));
    let second = reg.sync_modules_with_config(&config);
    assert!(second.start.is_empty());
    assert!(second.stop.is_empty());
    assert_eq!(second.reload, names(&["tray", "battery"]));
}

#[test]
fn stopping_discards_items_and_ignores_stale_updates() {
    let mut reg = ModuleRegistry::new(vec![], NotificationService::default());
    reg.sync_with_enabled(&names(&["a", "b"]));
    publish(&mut reg, "a", "x");
    publish(&mut reg, "b", "y");
    reg.sync_with_enabled(&names(&["b"]));
    assert!(reg.get_module_items("a").is_empty());
    publish(&mut reg, "a", "late");
    assert!(reg.get_module_items("a").is_empty());
    assert_eq!(reg.get_all_items().len(), 1);
}

#[test]
fn action_routing_splits_on_first_colon() {
    let mut reg = ModuleRegistry::new(vec![], NotificationService::default());
    reg.sync_with_enabled(&names(&["battery", "tray"]));
    let call = reg.invoke_action("battery:status", "toggle", 0, 0).unwrap();
    assert_eq!(call.module, "battery");
    assert_eq!(call.local_id, "status");
    assert_eq!(call.action_id, "toggle");
    let route = reg.route("tray::1.90/Item").unwrap();
    assert_eq!(route.module, "tray");
    assert_eq!(route.local_id, ":1.90/Item");
    assert_eq!(reg.invoke_action("nocolon", "toggle", 0, 0).err(), Some(RegistryError::InvalidId));
    assert_eq!(reg.invoke_action("clock:time", "toggle", 0, 0).err(), Some(RegistryError::NotFound));
}

#[test]
fn all_items_follow_configured_order() {
    let mut reg = ModuleRegistry::new(names(&["battery", "tray"]), NotificationService::default());
    reg.sync_with_enabled(&names(&["tray", "battery", "clock"]));
    publish(&mut reg, "clock", "time");
    publish(&mut reg, "tray", "app");
    publish(&mut reg, "battery", "status");
    let ids: Vec<String> = reg.get_all_items().into_iter().map(|i| i.id).collect();
    assert_eq!(ids, names(&["battery:status", "tray:app", "clock:time"]));
}

#[test]
fn items_update_replaces_module_list() {
    let mut reg = ModuleRegistry::new(vec![], NotificationService::default());
    reg.sync_with_enabled(&names(&["m"]));
    publish(&mut reg, "m", "one");
    reg.handle_event(ModuleEvent::ItemsUpdated {
        module_name: "m".to_string(),
        items: vec![
            ModuleItem::new("m", "two", "Two").with_action(ItemAction::default_action("go", "Go")),
            ModuleItem::new("m", "three", "Three").with_tooltip("tip").with_icon_name("icon"),
        ],
    });
    let items = reg.get_module_items("m");
    assert_eq!(items.len(), 2);
    assert_eq!(items[0].id, "m:two");
    assert!(items[0].actions[0].is_default);
    assert_eq!(items[1].tooltip.as_deref(), Some("tip"));
    assert_eq!(items[1].icon_name.as_deref(), Some("icon"));
}

#[test]
fn reload_config_replaces_order() {
    let mut reg = ModuleRegistry::new(names(&["tray"]), NotificationService::default());
    let mut config = Config::default();
    config.modules.order = names(&["battery"]);
    config.modules.battery = Some(BatteryModuleConfig::default());
    let plan = reg.reload_config(&config);
    assert_eq!(plan.start, names(&["tray", "battery"]));
    let events = reg.take_events();
    assert_eq!(events.len(), 1);
    assert!(matches!(events[0], ModuleEvent::ConfigReloaded));
    assert!(reg.take_events().is_empty());
    let again = reg.reload_config(&config);
    assert!(again.start.is_empty() && again.stop.is_empty());
    assert_eq!(reg.take_events().len(), 1);
    publish(&mut reg, "tray", "t");
    publish(&mut reg, "battery", "b");
    let ids: Vec<String> = reg.get_all_items().into_iter().map(|i| i.id).collect();
    assert_eq!(ids, names(&["battery:b", "tray:t"]));
}

#[test]
fn notifications_pass_through_when_enabled() {
    let mut reg = ModuleRegistry::new(vec![], NotificationService::new(true, 0));
    let n = reg
        .handle_event(ModuleEvent::Notification {
            title: "Low".to_string(),
            body: "10%".to_string(),
            urgency: Urgency::Critical,
        })
        .unwrap();
    assert_eq!(n.summary, "Low");
    assert_eq!(n.body, "10%");
    assert_eq!(n.urgency, Urgency::Critical);
    assert_eq!(n.timeout, NotificationTimeout::Never);
    assert!(reg.handle_event(ModuleEvent::ConfigReloaded).is_none());

    let mut quiet = ModuleRegistry::new(vec![], NotificationService::new(false, 100));
    assert!(quiet
        .handle_event(ModuleEvent::Notification {
            title: "t".to_string(),
            body: "b".to_string(),
            urgency: Urgency::Low,
        })
        .is_none());
}
