use waytray_daemon::menu::{parse_menu_layout, strip_mnemonics, MenuError, MenuItem, MenuLayout, PropValue};

#[test]
fn test_menu_item_default() {
    let item = MenuItem::default();
    assert_eq!(item.id, 0);
    assert!(item.enabled);
    assert!(item.visible);
    assert_eq!(item.item_type, "standard");
    assert_eq!(item.toggle_state, -1);
}

#[test]
fn test_label_mnemonic_removal() {
    let label = strip_mnemonics("_File");
    assert_eq!(label, "File");

    let label = strip_mnemonics("Save _As...");
    assert_eq!(label, "Save As...");
}

fn node(id: i32, props: Vec<(&str, PropValue)>, children: Vec<MenuLayout>) -> MenuLayout {
    MenuLayout {
        id,
        properties: props.into_iter().map(|(k, v)| (k.to_string(), v)).collect(),
        children,
    }
}

/// A root with a single chain of `levels` nested nodes under it.
fn chain(levels: i32) -> MenuLayout {
    let mut n = node(levels, vec![], vec![]);
    for id in (0..levels).rev() {
        n = node(id, vec![], vec![n]);
    }
    n
}

#[test]
fn depth_ten_parses_and_eleven_fails() {
    assert!(parse_menu_layout(&chain(10)).is_ok());
    assert_eq!(parse_menu_layout(&chain(11)).err(), Some(MenuError::DepthExceeded));
    assert_eq!(parse_menu_layout(&chain(15)).err(), Some(MenuError::DepthExceeded));
}

#[test]
fn too_deep_invisible_subtree_still_fails() {
    let mut deep = chain(10);
    deep.properties.push(("visible".to_string(), PropValue::Bool(false)));
    let root = node(0, vec![], vec![deep]);
    assert_eq!(parse_menu_layout(&root).err(), Some(MenuError::DepthExceeded));
}

#[test]
fn invisible_nodes_and_descendants_are_dropped() {
    let visible_grandchild = node(3, vec![("label", PropValue::Str("Inner".to_string()))], vec![]);
    let hidden = node(
        2,
        vec![("visible", PropValue::Bool(false))],
        vec![visible_grandchild],
    );
    let shown = node(
        1,
        vec![
            ("label", PropValue::Str("_Open".to_string())),
            ("enabled", PropValue::Bool(false)),
            ("icon-name", PropValue::Str("document-open".to_string())),
            ("toggle-type", PropValue::Str("".to_string())),
            ("toggle-state", PropValue::Int(1)),
            ("type", PropValue::Str("standard".to_string())),
            ("children-display", PropValue::Other),
        ],
        vec![],
    );
    let sep = node(4, vec![("type", PropValue::Str("separator".to_string()))], vec![]);
    let root = node(0, vec![], vec![shown, hidden, sep]);
    let items = parse_menu_layout(&root).unwrap();
    assert_eq!(items.len(), 2);
    assert_eq!(items[0].id, 1);
    assert_eq!(items[0].label, "Open");
    assert!(!items[0].enabled);
    assert_eq!(items[0].icon_name.as_deref(), Some("document-open"));
    assert_eq!(items[0].toggle_type, None);
    assert_eq!(items[0].toggle_state, 1);
    assert_eq!(items[1].id, 4);
    assert_eq!(items[1].item_type, "separator");
    assert_eq!(items[1].label, "");
}

#[test]
fn mistyped_property_is_ignored() {
    let n = node(7, vec![("label", PropValue::Bool(true)), ("visible", PropValue::Str("no".to_string()))], vec![]);
    let root = node(0, vec![], vec![n]);
    let items = parse_menu_layout(&root).unwrap();
    assert_eq!(items.len(), 1);
    assert_eq!(items[0].label, "");
    assert!(items[0].visible);
}
