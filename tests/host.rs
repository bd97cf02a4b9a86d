use waytray_daemon::cache::ItemCache;
use waytray_daemon::host::{
    item_endpoint, largest_pixmap, on_name_owner_changed, parse_service_string, tooltip_text,
    tray_item_from_properties, HostError, ItemProperties, Pixmap,
};
use waytray_daemon::item::{ItemCategory, ItemStatus};

fn pair(a: &str, b: &str) -> (String, String) {
    (a.to_string(), b.to_string())
}

#[test]
fn parse_unique_name_with_path() {
    assert_eq!(parse_service_string(":1.90/StatusNotifierItem"), pair(":1.90", "/StatusNotifierItem"));
}

#[test]
fn parse_unique_name_with_long_path() {
    assert_eq!(
        parse_service_string(":1.75/org/ayatana/NotificationItem/spotify_client"),
        pair(":1.75", "/org/ayatana/NotificationItem/spotify_client")
    );
}

#[test]
fn parse_well_known_name_default_path() {
    assert_eq!(
        parse_service_string("org.kde.StatusNotifierItem-1234-1"),
        pair("org.kde.StatusNotifierItem-1234-1", "/StatusNotifierItem")
    );
}

#[test]
fn parse_well_known_name_with_path() {
    assert_eq!(
        parse_service_string("org.kde.StatusNotifierItem-1234-1:/StatusNotifierItem"),
        pair("org.kde.StatusNotifierItem-1234-1", "/StatusNotifierItem")
    );
}

#[test]
fn parse_other_shapes() {
    assert_eq!(parse_service_string(":1.90:/org/x"), pair(":1.90:", "/org/x"));
    assert_eq!(parse_service_string(":1.42"), pair(":1.42", "/StatusNotifierItem"));
    assert_eq!(parse_service_string("org.a.B/path/x"), pair("org.a.B", "/path/x"));
}

#[test]
fn tooltip_prefers_title_then_description() {
    assert_eq!(tooltip_text(Some("T".to_string()), Some("D".to_string())), Some("T".to_string()));
    assert_eq!(tooltip_text(Some(String::new()), Some("D".to_string())), Some("D".to_string()));
    assert_eq!(tooltip_text(None, Some(String::new())), None);
}

#[test]
fn largest_pixmap_by_area_last_on_tie() {
    let p = |w: i32, h: i32, tag: u8| Pixmap { width: w, height: h, data: vec![tag] };
    assert_eq!(largest_pixmap(vec![p(16, 16, 1), p(32, 32, 2), p(24, 24, 3)]), (Some(vec![2]), 32, 32));
    assert_eq!(largest_pixmap(vec![p(8, 2, 1), p(4, 4, 2)]), (Some(vec![2]), 4, 4));
    assert_eq!(largest_pixmap(vec![]), (None, 0, 0));
}

fn no_props() -> ItemProperties {
    ItemProperties {
        id: None,
        title: None,
        status: None,
        category: None,
        icon_name: None,
        icon_pixmaps: vec![],
        tooltip_title: None,
        tooltip_description: None,
        menu_path: None,
        item_is_menu: None,
    }
}

#[test]
fn properties_default_on_failed_reads() {
    let t = tray_item_from_properties(":1.5/Item", ":1.5", "/Item", no_props());
    assert_eq!(t.id, ":1.5/Item");
    assert_eq!(t.title, ":1.5/Item");
    assert_eq!(t.status, ItemStatus::Active);
    assert_eq!(t.category, ItemCategory::ApplicationStatus);
    assert!(!t.has_menu);
    assert!(!t.item_is_menu);
    assert_eq!(t.icon_name, None);
}

#[test]
fn properties_read_are_used() {
    let mut props = no_props();
    props.id = Some("app".to_string());
    props.status = Some("NeedsAttention".to_string());
    props.category = Some("Hardware".to_string());
    props.icon_name = Some(String::new());
    props.tooltip_description = Some("desc".to_string());
    props.menu_path = Some("/Menu".to_string());
    props.item_is_menu = Some(true);
    props.icon_pixmaps = vec![Pixmap { width: 2, height: 2, data: vec![9; 16] }];
    let t = tray_item_from_properties("svc", "bus", "/p", props);
    assert_eq!(t.title, "app");
    assert_eq!(t.status, ItemStatus::NeedsAttention);
    assert_eq!(t.category, ItemCategory::Hardware);
    assert_eq!(t.icon_name, None);
    assert_eq!(t.tooltip.as_deref(), Some("desc"));
    assert!(t.has_menu);
    assert_eq!(t.menu_path.as_deref(), Some("/Menu"));
    assert!(t.item_is_menu);
    assert_eq!((t.icon_width, t.icon_height), (2, 2));
}

#[test]
fn endpoint_lookup_and_vanished_owner() {
    let mut cache = ItemCache::new();
    let mut props = no_props();
    props.title = Some("x".to_string());
    cache.upsert(tray_item_from_properties(":1.9/Item", ":1.9", "/Item", props));
    assert_eq!(item_endpoint(&cache, ":1.9/Item"), Ok((":1.9".to_string(), "/Item".to_string())));
    assert_eq!(item_endpoint(&cache, "nope"), Err(HostError::NotFound));

    assert!(on_name_owner_changed(&mut cache, ":1.9", Some(":1.10")).is_empty());
    assert_eq!(cache.len(), 1);
    let removed = on_name_owner_changed(&mut cache, ":1.9", Some(""));
    assert_eq!(removed.len(), 1);
    assert!(cache.is_empty());
}
