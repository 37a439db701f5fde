use niri_bar::config::BarPosition;
use niri_bar::modules::tray::protocol::{
    clean_menu_label, parse_icon_pixmap, parse_item_address, parse_raw_menu_item, parse_tooltip, truncate_label,
    RawMenuItem, Variant,
};
use niri_bar::modules::tray::service::{
    belongs_to_disconnected_owner, candidate_sni_paths, is_probe_candidate, item_from_properties, item_interfaces,
    messages_of, next_backoff, probe_questions,
    on_signal, parse_ayatana_children, plan_request, tracked_address, CallArgs, OwnerChange, SignalReaction,
    SignalSource, TrayService,
};
use niri_bar::modules::tray::types::{
    ActivateRequest, MenuItem, ToggleType, TrayEvent, TrayItem, TrayMenu, TrayTooltip,
};
use niri_bar::modules::tray::widget::{
    click, menu_rows, popup_gravity, scroll, Gravity, MenuRow, TrayClick, TrayScroll, TrayWidget,
};
use niri_bar::names::NameMap;

fn text(s: &str) -> Variant {
    Variant::Str(s.to_string())
}

fn entry(id: i32, props: Vec<(String, Variant)>, children: Vec<Variant>) -> Variant {
    Variant::Structure(vec![Variant::I32(id), Variant::Dict(props), Variant::Array(children)])
}

fn pixmaps(width: i32, height: i32, bytes: usize) -> Variant {
    let data = (0..bytes).map(|_| Variant::Byte(0)).collect();
    Variant::Array(vec![Variant::Structure(vec![
        Variant::I32(width),
        Variant::I32(height),
        Variant::Boxed(Box::new(Variant::Array(data))),
    ])])
}

fn deep_menu(depth: usize) -> RawMenuItem {
    let mut child = entry(depth as i32, Vec::new(), Vec::new());
    for id in (0..depth).rev() {
        child = entry(id as i32, Vec::new(), vec![child]);
    }
    RawMenuItem::from_value(child).expect("test menu nesting must parse as RawMenuItem")
}

fn item(bus: &str, menu: Option<&str>) -> TrayItem {
    let mut props = NameMap::new();
    if let Some(m) = menu {
        props.insert("Menu".to_string(), Variant::ObjectPath(m.to_string()));
    }
    item_from_properties(bus, "/StatusNotifierItem", &props)
}

fn menu_item(id: i32, label: &str) -> MenuItem {
    MenuItem {
        id,
        label: Some(label.to_string()),
        enabled: true,
        visible: true,
        is_separator: false,
        toggle_type: None,
        toggle_state: -1,
        submenu: Vec::new(),
    }
}

fn separator() -> MenuItem {
    MenuItem { is_separator: true, ..menu_item(0, "") }
}

#[test]
fn test_parse_item_address() {
    // Path only (Steam)
    let (bus, path, key) = parse_item_address("/org/ayatana/NotificationItem/steam", Some(":1.6300"));
    assert_eq!(bus, ":1.6300");
    assert_eq!(path, "/org/ayatana/NotificationItem/steam");
    assert_eq!(key, ":1.6300/org/ayatana/NotificationItem/steam");

    // Combined destination & path (JetBrains Toolbox)
    let (bus, path, key) = parse_item_address(":1.5215/StatusNotifierItem", None);
    assert_eq!(bus, ":1.5215");
    assert_eq!(path, "/StatusNotifierItem");
    assert_eq!(key, ":1.5215/StatusNotifierItem");

    // Service name only (OBS)
    let (bus, path, key) = parse_item_address("org.kde.StatusNotifierItem-71505-1", None);
    assert_eq!(bus, "org.kde.StatusNotifierItem-71505-1");
    assert_eq!(path, "/StatusNotifierItem");
    assert_eq!(key, "org.kde.StatusNotifierItem-71505-1/StatusNotifierItem");
}

#[test]
fn test_clean_menu_label() {
    assert_eq!(clean_menu_label("_Preferences..."), "Preferences...");
    assert_eq!(clean_menu_label("__Double__Under__"), "DoubleUnder");
    assert_eq!(clean_menu_label("  _File_  "), "File");
    assert_eq!(clean_menu_label("_"), "");
}

#[test]
fn test_raw_menu_parsing() {
    let mut props_root = Vec::new();
    props_root.push(("children-display".to_string(), text("submenu")));

    let mut props_child1 = Vec::new();
    props_child1.push(("label".to_string(), text("Open Toolbox")));
    props_child1.push(("enabled".to_string(), Variant::Bool(true)));
    props_child1.push(("visible".to_string(), Variant::Bool(true)));

    let mut props_child2 = Vec::new();
    props_child2.push(("label".to_string(), text("Quit App")));
    props_child2.push(("type".to_string(), text("standard")));

    let child1_struct = entry(1, props_child1, Vec::new());

    let child2_struct = entry(2, props_child2, Vec::new());

    let root = RawMenuItem {
        id: 0,
        props: props_root,
        children: vec![
            child1_struct,
            child2_struct,
        ],
    };

    let parsed = parse_raw_menu_item(&root);
    assert_eq!(parsed.id, 0);
    assert_eq!(parsed.submenu.len(), 2);
    assert_eq!(parsed.submenu[0].label.as_deref(), Some("Open Toolbox"));
    assert_eq!(parsed.submenu[1].label.as_deref(), Some("Quit App"));
}

#[test]
fn test_raw_menu_separator_and_toggle() {
    let mut props_sep = Vec::new();
    props_sep.push(("type".to_string(), text("separator")));

    let mut props_check = Vec::new();
    props_check.push(("label".to_string(), text("Dark Mode")));
    props_check.push(("toggle-type".to_string(), text("checkmark")));
    props_check.push(("toggle-state".to_string(), Variant::I32(1)));

    let sep_struct = entry(10, props_sep, Vec::new());

    let check_struct = entry(11, props_check, Vec::new());

    let mut props_root = Vec::new();
    props_root.push(("children-display".to_string(), text("submenu")));

    let root = RawMenuItem {
        id: 0,
        props: props_root,
        children: vec![
            sep_struct,
            check_struct,
        ],
    };

    let parsed = parse_raw_menu_item(&root);
    assert_eq!(parsed.submenu.len(), 2);
    assert!(parsed.submenu[0].is_separator);
    assert_eq!(parsed.submenu[1].toggle_type, Some(ToggleType::Checkmark));
    assert_eq!(parsed.submenu[1].toggle_state, 1);
}

#[test]
fn test_menu_depth_capped() {
    let parsed = parse_raw_menu_item(&deep_menu(100));
    // Walk the parsed tree: depth must stop at MAX_MENU_DEPTH.
    let mut depth = 0;
    let mut node = &parsed;
    while let Some(first) = node.submenu.first() {
        depth += 1;
        node = first;
        assert!(depth <= 8, "menu recursion exceeded cap");
    }
    assert!(depth > 0);
}

#[test]
fn test_menu_label_truncated() {
    let mut props = Vec::new();
    props.push(("label".to_string(), text(&"x".repeat(2000))));
    let item = RawMenuItem {
        id: 1,
        props,
        children: Vec::new(),
    };
    let parsed = parse_raw_menu_item(&item);
    assert!(parsed.label.as_ref().is_some_and(|l| l.len() <= 256));
}

#[test]
fn test_pixmap_dimension_caps() {
    // Absurd dimensions with a short buffer must be rejected, not allocated.
    let huge = pixmaps(99999, 99999, 16);
    assert!(parse_icon_pixmap(&huge).is_none());

    // Length mismatch (declares 2x2x4, delivers 4 bytes) rejected.
    let short = pixmaps(2, 2, 4);
    assert!(parse_icon_pixmap(&short).is_none());
}

#[test]
fn test_is_probe_candidate() {
    assert!(!is_probe_candidate("org.freedesktop.StatusNotifierWatcher"));
    assert!(!is_probe_candidate("org.kde.StatusNotifierItem-123-1"));
    assert!(is_probe_candidate(":1.6300"));
    assert!(is_probe_candidate("org.mozilla.firefox"));
}

#[test]
fn test_parse_ayatana_children() {
    let xml = "<node>\n<node name=\"steam\"/>\n<node name=\"\"/>\n<node name=\"vlc\"/>\n</node>";
    assert_eq!(
        parse_ayatana_children(xml),
        vec![
            "/org/ayatana/NotificationItem/steam".to_string(),
            "/org/ayatana/NotificationItem/vlc".to_string(),
        ]
    );
    assert!(parse_ayatana_children("<node></node>").is_empty());
}

#[test]
fn test_candidate_sni_paths() {
    let base = candidate_sni_paths(&[]);
    assert_eq!(base.len(), 3);
    assert_eq!(base[0], "/StatusNotifierItem");
    let extended = candidate_sni_paths(&["/org/ayatana/NotificationItem/vlc".to_string()]);
    assert_eq!(extended.len(), 4);
    assert_eq!(extended[3], "/org/ayatana/NotificationItem/vlc");
}

#[test]
fn test_belongs_to_disconnected_owner() {
    // Well-known name match.
    assert!(belongs_to_disconnected_owner(
        "spotify",
        "spotify/StatusNotifierItem",
        "spotify",
        ":1.50"
    ));
    // Unique (old owner) match.
    assert!(belongs_to_disconnected_owner(
        ":1.50",
        ":1.50/StatusNotifierItem",
        "spotify",
        ":1.50"
    ));
    // Key prefix match (registered under the unique name).
    assert!(belongs_to_disconnected_owner(
        ":1.99",
        ":1.50/MenuBar",
        "spotify",
        ":1.50"
    ));
    // Unrelated item survives.
    assert!(!belongs_to_disconnected_owner(
        "vlc",
        "vlc/StatusNotifierItem",
        "spotify",
        ":1.50"
    ));
    assert!(!belongs_to_disconnected_owner(
        ":1.60",
        ":1.60/StatusNotifierItem",
        "spotify",
        ":1.50"
    ));
}

#[test]
fn test_tooltip_default_empty() {
    let t = TrayTooltip::default();
    assert_eq!(t.title, "");
    assert_eq!(t.description, "");
}

#[test]
fn test_tray_tooltip_fields() {
    let t = TrayTooltip {
        title: "App".to_string(),
        description: "Running".to_string(),
    };
    assert_eq!(t.title, "App");
    assert_eq!(t.description, "Running");
}

#[test]
fn test_menu_default_empty() {
    let m = TrayMenu::default();
    assert!(m.submenus.is_empty());
}

#[test]
fn test_compute_tooltip() {
    // Both title and description present and distinct
    let tt = TrayTooltip {
        title: "Dropbox".to_string(),
        description: "Up to date".to_string(),
    };
    assert_eq!(
        TrayWidget::compute_tooltip(Some("Dropbox App"), Some(&tt)),
        Some("Dropbox: Up to date".to_string())
    );

    // Same title and description
    let tt_same = TrayTooltip {
        title: "Steam".to_string(),
        description: "Steam".to_string(),
    };
    assert_eq!(
        TrayWidget::compute_tooltip(Some("Steam"), Some(&tt_same)),
        Some("Steam".to_string())
    );

    // Only description
    let tt_desc = TrayTooltip {
        title: "".to_string(),
        description: "Synchronizing 5 files".to_string(),
    };
    assert_eq!(
        TrayWidget::compute_tooltip(None, Some(&tt_desc)),
        Some("Synchronizing 5 files".to_string())
    );

    // Only title fallback
    assert_eq!(
        TrayWidget::compute_tooltip(Some("Obsidian"), None),
        Some("Obsidian".to_string())
    );

    // None
    assert_eq!(TrayWidget::compute_tooltip(None, None), None);
}

#[test]
fn keys_are_read_back_as_addresses() {
    for service in [":1.2/StatusNotifierItem", "org.x/a/b", "org.y"] {
        let (bus, path, key) = parse_item_address(service, None);
        assert_eq!(key, format!("{bus}{path}"));
        assert_eq!(tracked_address(&key), Some((bus, path)));
    }
    assert_eq!(tracked_address("/only/a/path"), None);
}

#[test]
fn icons_are_read_in_network_order() {
    let mut data = Vec::new();
    for b in [1u8, 2, 3, 4] {
        data.push(Variant::Byte(b));
    }
    let v = Variant::Array(vec![Variant::Structure(vec![Variant::I32(1), Variant::I32(1), Variant::Array(data)])]);
    let icons = parse_icon_pixmap(&v).unwrap();
    assert_eq!((icons[0].width, icons[0].height), (1, 1));
    assert_eq!(icons[0].pixels, vec![1, 2, 3, 4]);
    assert!(parse_icon_pixmap(&text("x")).is_none());
}

#[test]
fn labels_are_cut() {
    assert_eq!(truncate_label("ab"), "ab");
    assert!(truncate_label(&"z".repeat(999)).chars().count() <= 256);
}

#[test]
fn tooltips_are_read_from_their_structure() {
    let mut props = NameMap::new();
    props.insert(
        "ToolTip".to_string(),
        Variant::Structure(vec![text("icon"), Variant::Array(vec![]), text("Title"), text("Words")]),
    );
    let t = parse_tooltip(&props).unwrap();
    assert_eq!((t.title.as_str(), t.description.as_str()), ("Title", "Words"));
    assert!(parse_tooltip(&NameMap::new()).is_none());
}

#[test]
fn items_are_read_from_their_properties() {
    let mut props = NameMap::new();
    props.insert("Id".to_string(), text("app"));
    props.insert("Title".to_string(), text("App"));
    props.insert("IconName".to_string(), text(" "));
    props.insert("ItemIsMenu".to_string(), Variant::U32(1));
    props.insert("Menu".to_string(), Variant::ObjectPath("/NO_DBUSMENU".to_string()));
    let i = item_from_properties(":1.5", "/S", &props);
    assert_eq!((i.bus_name.as_str(), i.object_path.as_str(), i.id.as_str()), (":1.5", "/S", "app"));
    assert_eq!(i.title.as_deref(), Some("App"));
    assert_eq!(i.icon_name, None);
    assert!(i.item_is_menu);
    assert_eq!(i.menu_path, None);
    assert_eq!(item(":1.6", Some("/menu")).menu_path.as_deref(), Some("/menu"));
    assert_eq!(item(":1.6", None).id, ":1.6");
}

#[test]
fn items_register_once_per_session() {
    let mut tray = TrayService::new();
    assert_eq!(tray.register("/item", ":1.7").as_deref(), Some(":1.7/item"));
    assert_eq!(tray.register("/item", ":1.7"), None);
    assert_eq!(tray.discover(":1.7", "/item"), None);
    assert_eq!(tray.discover(":1.8", "/item").as_deref(), Some(":1.8/item"));
    tray.start_session();
    assert!(tray.registered.is_empty());
    assert!(tray.register_key(":1.7/item"));
}

#[test]
fn items_of_an_owner_that_is_gone_are_taken_out() {
    let mut tray = TrayService::new();
    tray.register("/StatusNotifierItem", ":1.7");
    tray.track(":1.7/StatusNotifierItem".into(), item(":1.7", None), None);
    tray.track(":1.9/StatusNotifierItem".into(), item(":1.9", None), None);
    match tray.owner_changed(":1.7", ":1.7", "") {
        OwnerChange::Gone(keys) => assert_eq!(keys, vec![":1.7/StatusNotifierItem"]),
        other => panic!("{other:?}"),
    }
    assert!(tray.get_item_and_menu(":1.7/StatusNotifierItem").0.is_none());
    assert!(tray.get_item_and_menu(":1.9/StatusNotifierItem").0.is_some());
    assert!(tray.registered.is_empty());
    assert!(matches!(tray.owner_changed(":1.3", "", ":1.3"), OwnerChange::Probe));
    assert!(matches!(tray.owner_changed("org.kde.x", "", ":1.3"), OwnerChange::Nothing));
    assert!(tray.drop_item(":1.9/StatusNotifierItem"));
    assert!(!tray.drop_item(":1.9/StatusNotifierItem"));
}

#[test]
fn menus_are_fetched_anew_and_tried_twice() {
    let mut tray = TrayService::new();
    let key = ":1.7/StatusNotifierItem";
    tray.track(key.into(), item(":1.7", Some("/menu")), None);
    assert_eq!(tray.menu_path_of(key).as_deref(), Some("/menu"));
    assert!(tray.menu_fetched(key, None, false));
    assert!(!tray.menu_fetched(key, None, true));
    let menu = TrayMenu { submenus: vec![menu_item(1, "a")] };
    assert!(!tray.menu_fetched(key, Some(menu), false));
    assert_eq!(tray.get_item_and_menu(key).1.unwrap().submenus.len(), 1);
    tray.refresh_item(key, item(":1.7", None));
    assert_eq!(tray.menu_path_of(key), None);
    assert!(tray.get_item_and_menu(key).1.is_some());
    tray.refresh_item("other", item(":1.8", None));
    assert!(tray.get_item_and_menu("other").0.is_none());
}

#[test]
fn signals_lead_to_fresh_readings() {
    assert_eq!(on_signal(SignalSource::Item, "NewIcon"), SignalReaction::RefreshItem);
    assert_eq!(on_signal(SignalSource::Properties, "PropertiesChanged"), SignalReaction::RefreshItem);
    assert_eq!(on_signal(SignalSource::Properties, "Other"), SignalReaction::Nothing);
    assert_eq!(on_signal(SignalSource::Menu, "LayoutUpdated"), SignalReaction::RefreshMenu);
    assert_eq!(on_signal(SignalSource::Menu, "Other"), SignalReaction::Nothing);
}

#[test]
fn requests_become_calls() {
    let req = ActivateRequest::Default { bus_name: ":1.7".into(), object_path: "/p".into(), x: 3, y: 4 };
    let (first, second) = plan_request(&req, 9);
    assert_eq!((first.interface.as_str(), first.method.as_str()), ("org.kde.StatusNotifierItem", "Activate"));
    assert_eq!(first.args, CallArgs::Place(3, 4));
    assert_eq!(second.unwrap().interface, "org.freedesktop.StatusNotifierItem");
    let req = ActivateRequest::MenuItem { bus_name: ":1.7".into(), menu_path: "/m".into(), submenu_id: 5 };
    let (call, none) = plan_request(&req, 9);
    assert_eq!((call.path.as_str(), call.method.as_str(), call.args), ("/m", "Event", CallArgs::Clicked(5, 9)));
    assert!(none.is_none());
}

#[test]
fn attempts_to_connect_wait_longer_and_longer() {
    let mut waits = vec![1];
    for _ in 0..6 {
        waits.push(next_backoff(*waits.last().unwrap()));
    }
    assert_eq!(waits, vec![1, 2, 4, 8, 16, 30, 30]);
}

#[test]
fn each_separator_follows_an_entry() {
    let items = vec![
        separator(),
        menu_item(1, "_Open"),
        separator(),
        separator(),
        menu_item(2, "Quit"),
        separator(),
    ];
    let rows = menu_rows(&items);
    assert_eq!(rows.len(), 4);
    assert!(matches!(rows[3], MenuRow::Separator));
    assert!(matches!(&rows[0], MenuRow::Item { id: 1, label, enabled: true, check: None } if label == "Open"));
    assert!(matches!(rows[1], MenuRow::Separator));
    assert!(matches!(rows[2], MenuRow::Item { id: 2, .. }));
}

#[test]
fn menus_show_submenus_and_switches() {
    let mut sub = menu_item(1, "More");
    sub.submenu.push(menu_item(2, "In"));
    let mut check = menu_item(3, "Dark");
    check.toggle_type = Some(ToggleType::Checkmark);
    check.toggle_state = 1;
    let mut hidden = menu_item(4, "No");
    hidden.visible = false;
    let rows = menu_rows(&vec![sub, check, hidden]);
    assert_eq!(rows.len(), 2);
    assert!(matches!(&rows[0], MenuRow::Submenu { label, rows, .. } if label == "More" && rows.len() == 1));
    assert!(matches!(rows[1], MenuRow::Item { id: 3, check: Some(true), .. }));
}

#[test]
fn clicks_open_menus_or_activate() {
    let i = item(":1.7", Some("/menu"));
    let menu = Some(TrayMenu { submenus: vec![menu_item(1, "a")] });
    assert!(matches!(click(3, &i, &menu, true, 0, 0), TrayClick::Popup(ActivateRequest::AboutToShow { id: 0, .. })));
    assert!(matches!(click(3, &i, &None, true, 5, 6), TrayClick::Send(ActivateRequest::ContextMenu { x: 5, y: 6, .. })));
    assert!(matches!(click(1, &i, &menu, true, 5, 6), TrayClick::Send(ActivateRequest::Default { .. })));
    let mut is_menu = item(":1.7", Some("/menu"));
    is_menu.item_is_menu = true;
    assert!(matches!(click(1, &is_menu, &menu, true, 5, 6), TrayClick::Popup(_)));
    assert!(matches!(click(2, &i, &menu, true, 0, 0), TrayClick::Send(ActivateRequest::Secondary { .. })));
    assert!(matches!(click(9, &i, &menu, true, 0, 0), TrayClick::Ignore));
}

#[test]
fn scrolling_is_passed_on() {
    let i = item(":1.7", None);
    match scroll(TrayScroll::Left, &i) {
        Some(ActivateRequest::Scroll { delta, orientation, .. }) => {
            assert_eq!((delta, orientation.as_str()), (-1, "horizontal"));
        }
        other => panic!("{other:?}"),
    }
    assert!(scroll(TrayScroll::Smooth, &i).is_none());
}

#[test]
fn menus_open_away_from_the_edge() {
    assert_eq!(popup_gravity(BarPosition::Left), (Gravity::East, Gravity::West));
    assert_eq!(popup_gravity(BarPosition::Bottom), (Gravity::North, Gravity::South));
}

#[test]
fn an_item_has_one_button() {
    let mut w = TrayWidget::new(0);
    assert_eq!((w.icon_size, w.button_size()), (22, 28));
    assert!(!w.add_button("a"));
    assert!(!w.add_button("b"));
    assert!(w.add_button("a"));
    assert_eq!(w.keys, vec!["b", "a"]);
    assert!(w.has_button("b"));
    assert!(w.remove_button("b"));
    assert!(!w.remove_button("b"));
}

#[test]
fn subscribers_get_the_items_and_then_the_events() {
    let mut tray = TrayService::new();
    let menu = TrayMenu { submenus: vec![menu_item(3, "Quit")] };
    tray.track(":1.7/S".to_string(), item(":1.7", Some("/menu")), Some(menu));
    let mut subscribers = Vec::new();
    let (rx, now) = tray.subscribe(&mut subscribers);
    assert_eq!(now.len(), 1);
    let (key, known, menu) = &now[0];
    assert_eq!((key.as_str(), known.bus_name.as_str()), (":1.7/S", ":1.7"));
    assert_eq!(menu.as_ref().unwrap().submenus[0].label.as_deref(), Some("Quit"));

    let (other, _) = tray.subscribe(&mut subscribers);
    other.close();
    TrayService::broadcast(&mut subscribers, &TrayEvent::Remove(":1.7/S".to_string()));
    assert_eq!(subscribers.len(), 1);
    assert!(matches!(rx.try_recv(), Ok(TrayEvent::Remove(k)) if k == ":1.7/S"));
}

#[test]
fn a_name_that_only_begins_like_a_lost_one_keeps_its_items() {
    assert!(!belongs_to_disconnected_owner(":1.50", ":1.50/StatusNotifierItem", ":1.5", ":1.5"));
    assert!(belongs_to_disconnected_owner(":1.99", ":1.5", ":1.5", ":1.5"));
    assert!(belongs_to_disconnected_owner(":1.99", ":1.5/StatusNotifierItem", ":1.5", ":1.5"));
    let mut tray = TrayService::new();
    tray.track(":1.5/StatusNotifierItem".into(), item(":1.5", None), None);
    tray.track(":1.50/StatusNotifierItem".into(), item(":1.50", None), None);
    match tray.owner_changed(":1.5", ":1.5", "") {
        OwnerChange::Gone(keys) => assert_eq!(keys, vec![":1.5/StatusNotifierItem"]),
        other => panic!("{other:?}"),
    }
    assert!(tray.get_item_and_menu(":1.50/StatusNotifierItem").0.is_some());
}

#[test]
fn each_subscriber_gets_the_same_event() {
    let event = TrayEvent::Remove(":1.7/S".to_string());
    let messages = messages_of(&event, 3);
    assert_eq!(messages.len(), 3);
    for m in &messages {
        assert!(matches!(m, TrayEvent::Remove(k) if k == ":1.7/S"));
    }
    assert!(messages_of(&event, 0).is_empty());
}

#[test]
fn items_are_asked_for_in_order() {
    assert_eq!(item_interfaces(), vec!["org.kde.StatusNotifierItem", "org.freedesktop.StatusNotifierItem"]);
    let asked: Vec<String> = probe_questions().iter().map(|q| format!("{} {}", q.0, q.1)).collect();
    assert_eq!(
        asked,
        vec![
            "org.kde.StatusNotifierItem Id",
            "org.freedesktop.StatusNotifierItem Id",
            "org.kde.StatusNotifierItem Status"
        ]
    );
}

#[test]
fn a_subscriber_is_added_with_the_ends_of_its_channel() {
    let mut subscribers = Vec::new();
    let (tx, rx) = async_channel::unbounded();
    let given = TrayService::add_subscriber(&mut subscribers, tx, rx);
    TrayService::broadcast(&mut subscribers, &TrayEvent::Remove("k".to_string()));
    assert!(matches!(given.try_recv(), Ok(TrayEvent::Remove(k)) if k == "k"));
}
