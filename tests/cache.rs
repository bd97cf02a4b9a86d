use waytray_daemon::cache::ItemCache;
use waytray_daemon::item::{CacheEvent, ItemCategory, ItemStatus, TrayItem};

fn make_test_item(id: &str) -> TrayItem {
    TrayItem {
        id: id.to_string(),
        bus_name: format!("org.test.{}", id),
        object_path: "/StatusNotifierItem".to_string(),
        title: format!("Test Item {}", id),
        icon_name: Some("test-icon".to_string()),
        icon_pixmap: None,
        icon_width: 0,
        icon_height: 0,
        tooltip: None,
        status: ItemStatus::Active,
        has_menu: false,
        menu_path: None,
        item_is_menu: false,
        category: ItemCategory::ApplicationStatus,
    }
}

fn item_on(id: &str, bus: &str) -> TrayItem {
    let mut t = make_test_item(id);
    t.bus_name = bus.to_string();
    t
}

#[test]
fn test_cache_operations() {
    let mut cache = ItemCache::new();

    cache.upsert(make_test_item("1"));
    assert_eq!(cache.len(), 1);
    assert!(cache.contains("1"));

    let item = cache.get("1").unwrap();
    assert_eq!(item.title, "Test Item 1");

    let mut updated = make_test_item("1");
    updated.title = "Updated Title".to_string();
    cache.upsert(updated);
    let item = cache.get("1").unwrap();
    assert_eq!(item.title, "Updated Title");

    cache.remove("1");
    assert!(cache.is_empty());
}

#[test]
fn upsert_and_remove_converge_to_last_values() {
    let mut cache = ItemCache::new();
    cache.upsert(make_test_item("a"));
    cache.upsert(make_test_item("b"));
    cache.upsert(make_test_item("c"));
    cache.remove("b");
    let mut a2 = make_test_item("a");
    a2.title = "A again".to_string();
    cache.upsert(a2);
    cache.remove("c");
    cache.upsert(make_test_item("c"));
    cache.remove("zzz");

    let mut all = cache.get_all();
    all.sort_by(|x, y| x.id.cmp(&y.id));
    let ids: Vec<&str> = all.iter().map(|t| t.id.as_str()).collect();
    assert_eq!(ids, vec!["a", "c"]);
    assert_eq!(all[0].title, "A again");
    assert_eq!(all[1].title, "Test Item c");
}

#[test]
fn events_added_updated_removed() {
    let mut cache = ItemCache::new();
    cache.upsert(make_test_item("1"));
    cache.upsert(make_test_item("1"));
    assert!(cache.remove("1").is_some());
    assert!(cache.remove("1").is_none());
    let events = cache.take_events();
    assert_eq!(
        events,
        vec![
            CacheEvent::ItemAdded("1".to_string()),
            CacheEvent::ItemUpdated("1".to_string()),
            CacheEvent::ItemRemoved("1".to_string()),
        ]
    );
    assert!(cache.take_events().is_empty());
}

#[test]
fn field_updates_emit_updated_only_when_present() {
    let mut cache = ItemCache::new();
    cache.upsert(make_test_item("x"));
    cache.take_events();

    cache.update_title("x", "New".to_string());
    cache.update_status("x", ItemStatus::NeedsAttention);
    cache.update_tooltip("x", Some("tip".to_string()));
    cache.update_icon("x", None, Some(vec![1, 2, 3, 4]), 1, 1);
    cache.update_title("missing", "Nope".to_string());

    let t = cache.get("x").unwrap();
    assert_eq!(t.title, "New");
    assert_eq!(t.status, ItemStatus::NeedsAttention);
    assert_eq!(t.tooltip.as_deref(), Some("tip"));
    assert_eq!(t.icon_name, None);
    assert_eq!(t.icon_pixmap, Some(vec![1, 2, 3, 4]));
    assert_eq!(t.icon_width, 1);
    assert!(!cache.contains("missing"));

    let events = cache.take_events();
    assert_eq!(events.len(), 4);
    assert!(events.iter().all(|e| *e == CacheEvent::ItemUpdated("x".to_string())));
}

#[test]
fn remove_by_bus_name_removes_exactly_that_origin() {
    let mut cache = ItemCache::new();
    cache.upsert(item_on("first", ":1.5"));
    cache.upsert(item_on("q", ":1.7"));
    cache.upsert(item_on("second", ":1.5"));
    cache.take_events();

    let mut removed: Vec<String> = cache.remove_by_bus_name(":1.5").into_iter().map(|t| t.id).collect();
    removed.sort();
    assert_eq!(removed, vec!["first".to_string(), "second".to_string()]);
    assert_eq!(cache.len(), 1);
    assert!(cache.contains("q"));

    let mut events: Vec<CacheEvent> = cache.take_events();
    events.sort_by_key(|e| format!("{:?}", e));
    assert_eq!(
        events,
        vec![CacheEvent::ItemRemoved("first".to_string()), CacheEvent::ItemRemoved("second".to_string())]
    );

    assert!(cache.remove_by_bus_name(":1.99").is_empty());
    assert!(cache.take_events().is_empty());
}

#[test]
fn notify_changed_records_generic_update() {
    let mut cache = ItemCache::new();
    cache.notify_changed();
    assert_eq!(cache.take_events(), vec![CacheEvent::ItemUpdated(String::new())]);
}
