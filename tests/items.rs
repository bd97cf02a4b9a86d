use waytray_daemon::dto::{ItemActionDto, ModuleInfoDto, ModuleItemDto, TrayItemDto};
use waytray_daemon::item::{ItemCategory, ItemStatus, TrayItem};
use waytray_daemon::modules::{ItemAction, ModuleInfo, ModuleItem};
use waytray_daemon::notifications::{NotificationService, NotificationTimeout};
use waytray_daemon::power_profiles::PowerProfile;
use waytray_daemon::modules::Urgency;
use waytray_daemon::tray::{tray_item_to_module_item, tray_items_to_module_items, TrayCommand};
use waytray_daemon::watcher::{qualify_service, WatcherError, WatcherState};

fn tray_item(is_menu: bool, has_menu: bool) -> TrayItem {
    TrayItem {
        id: ":1.4/Item".to_string(),
        bus_name: ":1.4".to_string(),
        object_path: "/Item".to_string(),
        title: "Player".to_string(),
        icon_name: Some("player".to_string()),
        icon_pixmap: None,
        icon_width: 0,
        icon_height: 0,
        tooltip: None,
        status: ItemStatus::Active,
        has_menu,
        menu_path: None,
        item_is_menu: is_menu,
        category: ItemCategory::Communications,
    }
}

#[test]
fn status_and_category_parse_case_insensitively() {
    assert_eq!(ItemStatus::from_str("Active"), ItemStatus::Active);
    assert_eq!(ItemStatus::from_str("NEEDSATTENTION"), ItemStatus::NeedsAttention);
    assert_eq!(ItemStatus::from_str("needs-attention"), ItemStatus::NeedsAttention);
    assert_eq!(ItemStatus::from_str("whatever"), ItemStatus::Passive);
    assert_eq!(ItemStatus::NeedsAttention.as_str(), "NeedsAttention");
    assert_eq!(ItemCategory::from_str("SystemServices"), ItemCategory::SystemServices);
    assert_eq!(ItemCategory::from_str("system-services"), ItemCategory::SystemServices);
    assert_eq!(ItemCategory::from_str("Hardware"), ItemCategory::Hardware);
    assert_eq!(ItemCategory::from_str("x"), ItemCategory::ApplicationStatus);
}

#[test]
fn module_item_builders() {
    let item = ModuleItem::new("clock", "time", "12:00")
        .with_icon_name("clock")
        .with_tooltip("Monday")
        .with_action(ItemAction::new("copy", "Copy"));
    assert_eq!(item.id, "clock:time");
    assert_eq!(item.module, "clock");
    assert_eq!(item.label, "12:00");
    assert_eq!(item.icon_name.as_deref(), Some("clock"));
    assert_eq!(item.tooltip.as_deref(), Some("Monday"));
    assert_eq!(item.actions.len(), 1);
    assert!(!item.actions[0].is_default);
    assert!(ItemAction::default_action("a", "A").is_default);
}

#[test]
fn tray_items_become_module_items() {
    let m = tray_item_to_module_item(&tray_item(false, true));
    assert_eq!(m.id, "tray::1.4/Item");
    assert_eq!(m.module, "tray");
    assert_eq!(m.label, "Player");
    let ids: Vec<&str> = m.actions.iter().map(|a| a.id.as_str()).collect();
    assert_eq!(ids, vec!["activate", "secondary_activate", "context_menu"]);
    assert!(m.actions[0].is_default);

    let menu_only = tray_item_to_module_item(&tray_item(true, true));
    assert_eq!(menu_only.actions.len(), 1);
    assert_eq!(menu_only.actions[0].id, "context_menu");
    assert!(menu_only.actions[0].is_default);

    let mut with_tip = tray_item(false, false);
    with_tip.tooltip = Some("Now playing".to_string());
    with_tip.icon_pixmap = Some(vec![1, 2, 3, 4]);
    with_tip.icon_width = 1;
    with_tip.icon_height = 1;
    let plain = tray_items_to_module_items(&vec![with_tip]);
    assert_eq!(plain[0].actions.len(), 2);
    assert_eq!(plain[0].tooltip.as_deref(), Some("Now playing"));
    assert_eq!(plain[0].icon_name.as_deref(), Some("player"));
    assert_eq!(plain[0].icon_pixmap, Some(vec![1, 2, 3, 4]));
    assert_eq!((plain[0].icon_width, plain[0].icon_height), (1, 1));
}

#[test]
fn tray_commands() {
    assert_eq!(TrayCommand::from_action_id("activate"), Some(TrayCommand::Activate));
    assert_eq!(TrayCommand::from_action_id("secondary_activate"), Some(TrayCommand::SecondaryActivate));
    assert_eq!(TrayCommand::from_action_id("context_menu"), Some(TrayCommand::ContextMenu));
    assert_eq!(TrayCommand::from_action_id("scroll"), None);
}

#[test]
fn watcher_qualifies_bare_paths() {
    assert_eq!(qualify_service("/org/ayatana/x", Some(":1.3")), Ok(":1.3:/org/ayatana/x".to_string()));
    assert_eq!(qualify_service("org.kde.X-1", Some(":1.3")), Ok("org.kde.X-1".to_string()));
    assert_eq!(qualify_service("/p", None), Err(WatcherError::UnknownSender));

    let mut w = WatcherState::new();
    assert!(!w.is_host_registered());
    assert_eq!(w.register_item("/Item", Some(":1.8")), Ok(":1.8:/Item".to_string()));
    w.register_item("org.kde.Y-2", None).unwrap();
    w.register_item("org.kde.Y-2", None).unwrap();
    assert!(w.register_item("/Item", None).is_err());
    let mut items = w.registered_items();
    items.sort();
    assert_eq!(items, vec![":1.8:/Item".to_string(), "org.kde.Y-2".to_string()]);
    w.register_host("org.kde.StatusNotifierHost-1");
    assert!(w.is_host_registered());
    assert!(w.unregister_item("org.kde.Y-2"));
    assert!(!w.unregister_item("org.kde.Y-2"));
    assert_eq!(w.registered_items(), vec![":1.8:/Item".to_string()]);
}

#[test]
fn transport_shapes_round_trip() {
    let dto = TrayItemDto::from_item(tray_item(false, false));
    assert_eq!(dto.icon_name, "player");
    assert_eq!(dto.tooltip, "");
    assert_eq!(dto.status, "Active");
    assert_eq!(dto.category, "Communications");
    let back = dto.into_item();
    assert_eq!(back.tooltip, None);
    assert_eq!(back.icon_name.as_deref(), Some("player"));
    assert_eq!(back.status, ItemStatus::Active);
    assert_eq!(back.category, ItemCategory::Communications);

    let m = ModuleItem::new("m", "i", "L").with_action(ItemAction::default_action("a", "A"));
    let mdto = ModuleItemDto::from_item(m);
    assert_eq!(mdto.icon_name, "");
    assert_eq!(mdto.actions.len(), 1);
    assert_eq!(mdto.actions[0].id, "a");
    let a = ItemActionDto::from_action(ItemAction::new("x", "X")).into_action();
    assert_eq!((a.id.as_str(), a.label.as_str(), a.is_default), ("x", "X", false));
    let info = ModuleInfoDto::from_info(ModuleInfo { name: "tray".to_string(), enabled: true });
    assert_eq!(info.name, "tray");
    assert!(info.enabled);
}

#[test]
fn power_profiles_cycle() {
    assert_eq!(PowerProfile::from_str("power-saver"), PowerProfile::PowerSaver);
    assert_eq!(PowerProfile::from_str("performance"), PowerProfile::Performance);
    assert_eq!(PowerProfile::from_str("other"), PowerProfile::Balanced);
    assert_eq!(PowerProfile::PowerSaver.next(), PowerProfile::Balanced);
    assert_eq!(PowerProfile::Balanced.next(), PowerProfile::Performance);
    assert_eq!(PowerProfile::Performance.next(), PowerProfile::PowerSaver);
    assert_eq!(PowerProfile::Balanced.as_str(), "balanced");
    assert_eq!(PowerProfile::PowerSaver.display_name(), "Power Saver");
    assert_eq!(PowerProfile::Performance.icon_name(), "power-profile-performance-symbolic");
}

#[test]
fn notification_requests() {
    let s = NotificationService::new(true, 3000);
    let n = s.request_with_icon("T", "B", Urgency::Normal, "battery-low").unwrap();
    assert_eq!(n.icon.as_deref(), Some("battery-low"));
    assert_eq!(n.timeout, NotificationTimeout::Milliseconds(3000));
    assert!(NotificationService::new(false, 0).request("T", "B", Urgency::Low).is_none());
}
