use niri_bar::config::{
    BatteryConfig, BluetoothConfig, BrightnessConfig, ClickActions, ClockConfig, MemoryConfig, NetworkConfig,
    SpacerConfig,
};
use niri_bar::local_time::LocalTime;
use niri_bar::modules::battery::{any_online, read_battery_full, read_battery_sysfs, BatteryModule, PowerSupply};
use niri_bar::modules::bluetooth::{
    read_managed_objects, read_rfkill, toggle_command, BluetoothModule, BluetoothState, BluetoothWorker,
    BusInterface, RadioSwitch, TRIGGER_TICKS,
};
use niri_bar::modules::brightness::{get_backlight_device, set_brightness_args, Backlight, BrightnessModule};
use niri_bar::modules::clock::{needs_per_second_tick, ClockModule, ClockTicker};
use niri_bar::modules::memory::{choose_figures, parse_meminfo, Figure, MemoryModule};
use niri_bar::modules::network::{
    candidate_paths, first_connection, get_active_default_interface, is_virtual_interface,
    read_network_state_full, DefaultInterface, Link, NetworkModule, NetworkType,
};
use niri_bar::modules::spacer::{configure_spacer_button, SpacerModule};
use niri_bar::modules::tray::protocol::Variant;
use niri_bar::modules::{
    add_subscriber, broadcast, helper_env_key, hover_pointer, mouse_button, poll_backoff, resolve_helper, shell_command, states_for,
    subscribe_to, truncate_log, BarModule, HealthNote, ModuleState, ModuleSubscribers, ModuleWidget, MouseButton,
    Orientation, PollHealth, ScrollDirection,
};
use niri_bar::names::NameMap;
use niri_bar::util::{delivery_of, keep_open, nudge, Delivery};

fn noon() -> LocalTime {
    LocalTime { secs: 43_200, nanos: 0, offset: 0 }
}

fn show_memory(config: &MemoryConfig, used: f64, total: f64, orientation: Orientation) -> ModuleState {
    let percent = ((used / total) * 100.0) as u32;
    MemoryModule::format_state_static(
        config,
        &format!("{used:.1}"),
        &format!("{total:.1}"),
        &percent.to_string(),
        orientation,
    )
}

fn text(s: &str) -> Variant {
    Variant::Str(s.to_string())
}

#[test]
fn test_format_combined_label_both_icon_and_text() {
    let vert = ModuleWidget::format_combined_label(Some(""), Some("50%"), Orientation::Vertical);
    assert_eq!(vert, "\n50%");

    let horiz = ModuleWidget::format_combined_label(Some(""), Some("50%"), Orientation::Horizontal);
    assert_eq!(horiz, " 50%");

    // Text with newlines should be flattened in horizontal orientation
    let horiz_multiline = ModuleWidget::format_combined_label(Some(""), Some("On\nBT"), Orientation::Horizontal);
    assert_eq!(horiz_multiline, " On BT");
}

#[test]
fn test_format_combined_label_icon_only_or_text_only() {
    let icon_only = ModuleWidget::format_combined_label(Some("󰂲"), None, Orientation::Vertical);
    assert_eq!(icon_only, "󰂲");

    let text_only_vert = ModuleWidget::format_combined_label(None, Some("12:00\nMon"), Orientation::Vertical);
    assert_eq!(text_only_vert, "12:00\nMon");

    let text_only_horiz = ModuleWidget::format_combined_label(None, Some("12:00\nMon"), Orientation::Horizontal);
    assert_eq!(text_only_horiz, "12:00 Mon");
}

#[test]
fn test_format_combined_label_empty() {
    let empty = ModuleWidget::format_combined_label(None, None, Orientation::Vertical);
    assert_eq!(empty, "");

    let empty_strs = ModuleWidget::format_combined_label(Some(""), Some(""), Orientation::Horizontal);
    assert_eq!(empty_strs, "");
}

#[test]
fn test_truncate_log_caps() {
    assert_eq!(truncate_log("hi"), "hi");
    let long = "x".repeat(600);
    let t = truncate_log(&long);
    assert!(t.contains("truncated"));
    assert!(t.len() < long.len());
}

#[test]
fn test_resolve_helper_absolute_or_fallback() {
    let p = resolve_helper("wpctl", None, true, false);
    assert!(!p.is_empty());
    assert!(p == "/usr/bin/wpctl" || p == "/bin/wpctl" || p == "wpctl");
}

#[test]
fn test_poll_backoff_doubles_to_cap() {
    assert_eq!(
        poll_backoff(2, 0, 30),
        2
    );
    assert_eq!(
        poll_backoff(2, 1, 30),
        4
    );
    assert_eq!(
        poll_backoff(2, 4, 30),
        30
    );
    assert_eq!(
        poll_backoff(2, 100, 30),
        30
    );
}

#[test]
fn test_battery_tooltip_plugged_unplugged() {
    let config = BatteryConfig::default();

    let state_charging = BatteryModule::format_state_static(&config, 80, "Charging", false, Orientation::Vertical);
    assert_eq!(state_charging.tooltip.as_deref(), Some("Plugged"));
    assert_eq!(state_charging.text.as_deref(), Some("\n80%"));
    assert!(state_charging.css_classes.contains(&"charging".to_string()));

    let state_discharging = BatteryModule::format_state_static(&config, 80, "Discharging", false, Orientation::Vertical);
    assert_eq!(state_discharging.tooltip.as_deref(), Some("Unplugged"));
    assert_eq!(state_discharging.text.as_deref(), Some("\n80%"));
    assert!(!state_discharging.css_classes.contains(&"charging".to_string()));
}

#[test]
fn test_battery_full_state() {
    let config = BatteryConfig::default();

    let state_full = BatteryModule::format_state_static(&config, 100, "Full", false, Orientation::Vertical);
    assert_eq!(state_full.tooltip.as_deref(), Some("Plugged"));
    assert_eq!(state_full.text.as_deref(), Some("\nFull"));
    assert!(state_full.css_classes.contains(&"full".to_string()));

    let state_plugged_100 = BatteryModule::format_state_static(&config, 100, "Not charging", false, Orientation::Vertical);
    assert_eq!(state_plugged_100.text.as_deref(), Some("\nFull"));
}

#[test]
fn test_battery_thresholds() {
    let config = BatteryConfig {
        warning_threshold: 30,
        critical_threshold: 15,
        ..Default::default()
    };

    // Critical <= 15
    let state_crit = BatteryModule::format_state_static(&config, 10, "Discharging", false, Orientation::Vertical);
    assert!(state_crit.css_classes.contains(&"critical".to_string()));
    assert!(!state_crit.css_classes.contains(&"warning".to_string()));

    // Warning <= 30
    let state_warn = BatteryModule::format_state_static(&config, 25, "Discharging", false, Orientation::Vertical);
    assert!(state_warn.css_classes.contains(&"warning".to_string()));
    assert!(!state_warn.css_classes.contains(&"critical".to_string()));

    // Normal > 30
    let state_norm = BatteryModule::format_state_static(&config, 50, "Discharging", false, Orientation::Vertical);
    assert!(!state_norm.css_classes.contains(&"warning".to_string()));
    assert!(!state_norm.css_classes.contains(&"critical".to_string()));
}

#[test]
fn test_parse_upower_state() {
    assert_eq!(BatteryModule::parse_upower_state(1), "Charging");
    assert_eq!(BatteryModule::parse_upower_state(2), "Discharging");
    assert_eq!(BatteryModule::parse_upower_state(3), "Empty");
    assert_eq!(BatteryModule::parse_upower_state(4), "Full");
    assert_eq!(BatteryModule::parse_upower_state(5), "Charging");
    assert_eq!(BatteryModule::parse_upower_state(6), "Discharging");
    assert_eq!(BatteryModule::parse_upower_state(999), "Unknown");
}

#[test]
fn battery_test_current_state_uses_cached_last() {
    let m = BatteryModule::new(BatteryConfig::default(), Some((42, "Discharging".to_string())));
    let cached = m.last.clone();
    let expected = match cached {
        Some((cap, status)) => BatteryModule::format_state_static(&m.config, cap, &status, false, Orientation::Vertical),
        None => BatteryModule::no_battery_state(),
    };
    let got = m.current_state(false, Orientation::Vertical);
    assert_eq!(got.text, expected.text);
    assert_eq!(got.tooltip, expected.tooltip);
}

#[test]
fn test_bluetooth_modes() {
    let config = BluetoothConfig::default();

    // Off
    let state_off = BluetoothModule::format_state_with_config(&config, &BluetoothState::Off, Orientation::Vertical);
    assert_eq!(state_off.text.as_deref(), Some("󰂲\nOff"));
    assert_eq!(state_off.tooltip.as_deref(), Some("(0 Connected)"));
    assert!(state_off.css_classes.contains(&"disabled".to_string()));
    assert!(state_off.css_classes.contains(&"off".to_string()));

    // Loading
    let state_loading =
        BluetoothModule::format_state_with_config(&config, &BluetoothState::Loading, Orientation::Vertical);
    assert_eq!(state_loading.text.as_deref(), Some("󰂯\n..."));
    assert_eq!(state_loading.tooltip.as_deref(), Some("(0 Connected)"));
    assert!(state_loading.css_classes.contains(&"loading".to_string()));

    // On, disconnected
    let state_on = BluetoothModule::format_state_with_config(&config, &BluetoothState::On, Orientation::Vertical);
    assert_eq!(state_on.text.as_deref(), Some("\nOn"));
    assert_eq!(state_on.tooltip.as_deref(), Some("(0 Connected)"));

    // Connected (default mode indicator)
    let state_conn = BluetoothModule::format_state_with_config(
        &config,
        &BluetoothState::Connected {
            count: 1,
            device_name: Some("WH-1000XM4".to_string()),
        },
        Orientation::Vertical,
    );
    assert_eq!(state_conn.text.as_deref(), Some("󰂱\nOn"));
    assert_eq!(state_conn.tooltip.as_deref(), Some("(1 Connected)"));
    assert!(state_conn.css_classes.contains(&"connected".to_string()));

    // Connected with custom placeholder mode
    let mut custom_modes = NameMap::new();
    custom_modes.insert("connected".to_string(), "󰂱\n%d".to_string());
    let custom_cfg = BluetoothConfig {
        modes: custom_modes,
        ..Default::default()
    };
    let custom_state_conn = BluetoothModule::format_state_with_config(
        &custom_cfg,
        &BluetoothState::Connected {
            count: 1,
            device_name: Some("WH-1000XM4".to_string()),
        },
        Orientation::Vertical,
    );
    assert_eq!(custom_state_conn.text.as_deref(), Some("󰂱\nWH-1000XM4"));
}

#[test]
fn test_bluetooth_custom_loading_mode() {
    let mut modes = NameMap::new();
    modes.insert("loading".to_string(), "󰑮\nWait".to_string());
    let config = BluetoothConfig {
        modes,
        ..Default::default()
    };

    let state_loading =
        BluetoothModule::format_state_with_config(&config, &BluetoothState::Loading, Orientation::Vertical);
    assert_eq!(state_loading.text.as_deref(), Some("󰑮\nWait"));
    assert!(state_loading.css_classes.contains(&"loading".to_string()));
}

#[test]
fn test_parse_bluez_properties() {
    // Powered off
    let state = BluetoothModule::parse_bluez_properties(false, Some("off"), &[]);
    assert_eq!(state, BluetoothState::Off);

    // Enabling / Disabling
    let state = BluetoothModule::parse_bluez_properties(false, Some("off-enabling"), &[]);
    assert_eq!(state, BluetoothState::Loading);

    // Powered on with no connected devices
    let state = BluetoothModule::parse_bluez_properties(true, Some("on"), &[("WH-1000XM4", false)]);
    assert_eq!(state, BluetoothState::On);

    // Powered on with 2 connected devices
    let state =
        BluetoothModule::parse_bluez_properties(true, Some("on"), &[("WH-1000XM4", true), ("MX Master 3S", true)]);
    assert_eq!(
        state,
        BluetoothState::Connected {
            count: 2,
            device_name: Some("WH-1000XM4".to_string()),
        }
    );
}

#[test]
fn bluetooth_test_current_state_uses_cached_last() {
    let m = BluetoothModule::new(BluetoothConfig::default(), BluetoothState::On);
    let cached = m.last.clone();
    let expected = BluetoothModule::format_state_with_config(&m.config, &cached, Orientation::Vertical);
    let got = m.current_state(Orientation::Vertical);
    assert_eq!(got.text, expected.text);
    assert_eq!(got.tooltip, expected.tooltip);
}

#[test]
fn test_brightness_state_and_levels() {
    let config = BrightnessConfig::default();

    let state_low = BrightnessModule::format_state_with_config(&config, 10, Orientation::Vertical);
    assert_eq!(state_low.text.as_deref(), Some("󰃞\n10%"));
    assert_eq!(state_low.tooltip.as_deref(), Some("10%"));
    assert!(state_low.css_classes.contains(&"level-0".to_string()));

    let state_mid = BrightnessModule::format_state_with_config(&config, 50, Orientation::Vertical);
    assert_eq!(state_mid.text.as_deref(), Some("󰃟\n50%"));
    assert!(state_mid.css_classes.contains(&"level-33".to_string()));

    let state_high = BrightnessModule::format_state_with_config(&config, 90, Orientation::Vertical);
    assert_eq!(state_high.text.as_deref(), Some("󰃠\n90%"));
    assert!(state_high.css_classes.contains(&"level-66".to_string()));

    let state_max = BrightnessModule::format_state_with_config(&config, 100, Orientation::Vertical);
    assert_eq!(state_max.text.as_deref(), Some("󰃡\n100%"));
    assert!(state_max.css_classes.contains(&"level-100".to_string()));
}

#[test]
fn test_brightness_clickability() {
    let unclickable = BrightnessModule::new(BrightnessConfig::default(), None);
    assert!(!unclickable.is_clickable());

    let clickable = BrightnessModule::new(BrightnessConfig {
        click: ClickActions {
            on_click_left: Some("brightnessctl set 50%".to_string()),
            ..Default::default()
        },
        ..Default::default()
    }, None);
    assert!(clickable.is_clickable());
}

#[test]
fn test_clock_format_orientation() {
    let config = ClockConfig {
        format_vertical: "%H\n%M".to_string(),
        format_horizontal: "%H:%M".to_string(),
        ..Default::default()
    };
    let clock = ClockModule::new(config);
    let vert_state = clock.current_state(&noon(), Orientation::Vertical).unwrap();
    assert!(vert_state.text.unwrap().contains('\n'));

    let horiz_state = clock.current_state(&noon(), Orientation::Horizontal).unwrap();
    assert!(horiz_state.text.unwrap().contains(':'));
    assert!(horiz_state.tooltip.unwrap().contains('('));
}

#[test]
fn test_clock_clickability() {
    let mut config = ClockConfig {
        format_vertical: "%H:%M".to_string(),
        format_horizontal: "%H:%M".to_string(),
        ..Default::default()
    };
    let clock_non_clickable = ClockModule::new(config.clone());
    assert!(!clock_non_clickable.is_clickable());

    config.click.on_click_left = Some("gnome-calendar".to_string());
    let clock_clickable = ClockModule::new(config);
    assert!(clock_clickable.is_clickable());
}

#[test]
fn test_needs_per_second_tick() {
    assert!(!needs_per_second_tick("%H:%M", "%a %d %b %H:%M"));
    assert!(!needs_per_second_tick("%H\n%M", "%H:%M"));
    assert!(needs_per_second_tick("%H:%M:%S", "%H:%M"));
    assert!(needs_per_second_tick("%H:%M", "%T"));
    assert!(needs_per_second_tick("%c", "%H:%M"));
    assert!(needs_per_second_tick("%H:%M", "%+"));
    assert!(needs_per_second_tick("%r", "%X"));
}

#[test]
fn test_memory_format() {
    let config = MemoryConfig::default();
    let state = show_memory(&config, 5.5, 16.0, Orientation::Vertical);
    assert_eq!(state.text.as_deref(), Some("󰍛\n5.5G"));
    assert_eq!(state.tooltip.as_deref(), Some("5.5G / 16.0G (34%)"));

    let custom_config = MemoryConfig {
        format: "RAM: %u/%t (%p%)".to_string(),
        ..Default::default()
    };
    let custom_state = show_memory(&custom_config, 5.5, 16.0, Orientation::Vertical);
    assert_eq!(custom_state.text.as_deref(), Some("RAM: 5.5/16.0 (34%)"));
}

#[test]
fn test_memory_clickability() {
    let unclickable = MemoryModule::new(MemoryConfig::default());
    assert!(!unclickable.is_clickable());

    let clickable = MemoryModule::new(MemoryConfig {
        click: ClickActions {
            on_click_left: Some("alacritty -e btop".to_string()),
            ..Default::default()
        },
        ..Default::default()
    });
    assert!(clickable.is_clickable());
}

#[test]
fn test_network_format_states() {
    let config = NetworkConfig::default();

    let wifi_state = NetworkModule::format_state_with_config(
        &config,
        &NetworkType::Wifi,
        Some("MyHomeNetwork"),
        Orientation::Vertical,
    );
    assert_eq!(wifi_state.text.as_deref(), Some("󰤨\nWiFi"));
    assert_eq!(wifi_state.tooltip.as_deref(), Some("MyHomeNetwork"));
    assert!(wifi_state.css_classes.contains(&"wifi".to_string()));

    let eth_state =
        NetworkModule::format_state_with_config(&config, &NetworkType::Ethernet, None, Orientation::Vertical);
    assert_eq!(eth_state.text.as_deref(), Some("󰈀\nLAN"));
    assert_eq!(eth_state.tooltip.as_deref(), Some("Ethernet"));
    assert!(eth_state.css_classes.contains(&"ethernet".to_string()));

    let off_state =
        NetworkModule::format_state_with_config(&config, &NetworkType::Disconnected, None, Orientation::Vertical);
    assert_eq!(off_state.text.as_deref(), Some("󰤮\nOff"));
    assert_eq!(off_state.tooltip.as_deref(), Some("Disconnected"));
    assert!(off_state.css_classes.contains(&"disconnected".to_string()));
}

#[test]
fn test_network_clickability() {
    let unclickable = NetworkModule::new(NetworkConfig::default(), (NetworkType::Disconnected, None));
    assert!(!unclickable.is_clickable());

    let clickable = NetworkModule::new(NetworkConfig {
        click: ClickActions {
            on_click_left: Some("nm-connection-editor".to_string()),
            ..Default::default()
        },
        ..Default::default()
    }, (NetworkType::Disconnected, None));
    assert!(clickable.is_clickable());
}

#[test]
fn test_parse_nm_connection_type_and_id() {
    let (wifi_type, ssid) = NetworkModule::parse_nm_connection_type_and_id("802-11-wireless", "MyWiFiNetwork");
    assert_eq!(wifi_type, NetworkType::Wifi);
    assert_eq!(ssid.as_deref(), Some("MyWiFiNetwork"));

    let (eth_type, no_ssid) =
        NetworkModule::parse_nm_connection_type_and_id("802-3-ethernet", "Wired connection 1");
    assert_eq!(eth_type, NetworkType::Ethernet);
    assert_eq!(no_ssid, None);

    let (disc_type, _) = NetworkModule::parse_nm_connection_type_and_id("unknown", "none");
    assert_eq!(disc_type, NetworkType::Disconnected);
}

#[test]
fn network_test_current_state_uses_cached_last() {
    let m = NetworkModule::new(NetworkConfig::default(), (NetworkType::Wifi, Some("home".to_string())));
    let (t, s) = m.last.clone();
    let expected = NetworkModule::format_state_with_config(&m.config, &t, s.as_deref(), Orientation::Vertical);
    let got = m.current_state(Orientation::Vertical);
    assert_eq!(got.text, expected.text);
    assert_eq!(got.tooltip, expected.tooltip);
}

#[test]
fn test_update_best_route() {
    let mut best = None;
    NetworkModule::update_best_route(&mut best, "eth0", 0x3, 100);
    assert_eq!(best, Some(("eth0".to_string(), 100)));

    // Lower metric wins
    NetworkModule::update_best_route(&mut best, "wlan0", 0x3, 50);
    assert_eq!(best, Some(("wlan0".to_string(), 50)));

    // Higher metric ignored
    NetworkModule::update_best_route(&mut best, "eth1", 0x3, 200);
    assert_eq!(best, Some(("wlan0".to_string(), 50)));

    // Route not UP (flags & 0x1 == 0) ignored even with lower metric
    NetworkModule::update_best_route(&mut best, "eth2", 0x2, 10);
    assert_eq!(best, Some(("wlan0".to_string(), 50)));
}

#[test]
fn test_spacer_state_and_clickability() {
    let default_spacer = SpacerModule::new(SpacerConfig::default());
    assert_eq!(default_spacer.name(), "spacer");
    assert!(!default_spacer.is_clickable());

    let state = default_spacer.current_state(Orientation::Vertical);
    assert!(state.icon.is_none());
    assert!(state.text.is_none());
    assert_eq!(state.css_classes, vec!["module-spacer"]);

    let clickable_spacer = SpacerModule::new(SpacerConfig {
        size: 20,
        click: ClickActions {
            on_click_left: Some("echo clicked".into()),
            ..Default::default()
        },
    });
    assert!(clickable_spacer.is_clickable());
}

#[test]
fn test_configure_spacer_button_visibility_and_sizing() {
    // When size <= 0: hidden
    let button = configure_spacer_button(0, true);
    assert!(!button.visible);

    // When size > 0 and vertical: visible, height = size, width = -1
    let button = configure_spacer_button(15, true);
    assert!(button.visible);
    assert_eq!((button.width, button.height), (-1, 15));

    // When size > 0 and horizontal: visible, width = size, height = -1
    let button = configure_spacer_button(25, false);
    assert!(button.visible);
    assert_eq!((button.width, button.height), (25, -1));
}

#[test]
fn helpers_follow_the_environment() {
    assert_eq!(helper_env_key("pw-mon"), "NIRI_BAR_PW_MON");
    assert_eq!(resolve_helper("x", Some("/opt/x"), true, true), "/opt/x");
    assert_eq!(resolve_helper("x", Some("  "), false, true), "/bin/x");
    assert_eq!(resolve_helper("x", None, false, false), "x");
}

#[test]
fn long_texts_are_cut_for_the_log() {
    let at_limit = "y".repeat(500);
    assert_eq!(truncate_log(&at_limit), at_limit);
    let t = truncate_log(&"y".repeat(501));
    assert!(t.starts_with(&at_limit) && t.contains("truncated"));
}

#[test]
fn buttons_have_numbers() {
    assert_eq!(mouse_button(1), Some(MouseButton::Left));
    assert_eq!(mouse_button(2), Some(MouseButton::Middle));
    assert_eq!(mouse_button(3), Some(MouseButton::Right));
    assert_eq!(mouse_button(8), None);
}

#[test]
fn blank_commands_are_not_run() {
    assert_eq!(shell_command(Some("  ")), None);
    assert_eq!(shell_command(Some(" ls ")).as_deref(), Some("ls"));
    assert_eq!(shell_command(None), None);
    let clock = ClockModule::new(ClockConfig {
        click: ClickActions {
            on_click_left: Some(" ".into()),
            on_click_right: Some("cal".into()),
            ..Default::default()
        },
        ..Default::default()
    });
    assert_eq!(clock.click_command(MouseButton::Left), None);
    assert_eq!(clock.click_command(MouseButton::Right).as_deref(), Some("cal"));
    assert_eq!(clock.click_command(MouseButton::Middle), None);
}

#[test]
fn a_failing_source_is_told_once() {
    let mut h = PollHealth::new();
    assert_eq!(h.record(true), HealthNote::Nothing);
    assert_eq!(h.record(false), HealthNote::Degraded);
    assert_eq!(h.record(false), HealthNote::Nothing);
    assert_eq!(h.wait(2, 30), 8);
    assert!(!h.renew_due(1));
    assert_eq!(h.record(false), HealthNote::Nothing);
    assert!(h.renew_due(1));
    assert_eq!(h.record(true), HealthNote::Recovered);
    assert_eq!(h.wait(2, 30), 2);
    assert!(h.renew_due(300_000));
}

#[test]
fn a_wait_never_passes_its_cap() {
    assert_eq!(poll_backoff(0, 5, 30), 0);
    assert_eq!(poll_backoff(50, 0, 30), 30);
    assert_eq!(poll_backoff(u64::MAX / 2, 9, u64::MAX), u64::MAX);
    assert_eq!(poll_backoff(1, 6, 1000), 64);
    assert_eq!(poll_backoff(1, 63, u64::MAX), 1 << 63);
    assert_eq!(poll_backoff(1, u32::MAX, u64::MAX), u64::MAX);
}

#[test]
fn old_classes_of_a_module_go() {
    let mut w = ModuleWidget::new("battery", false);
    let mut state = ModuleState::default();
    state.text = Some("a\nb".into());
    state.css_classes = vec!["warning".into()];
    w.apply_state(&state, Orientation::Horizontal);
    assert_eq!(w.label, "a b");
    assert!(w.label_visible);
    assert_eq!(w.classes, vec!["module-item", "module-battery", "non-clickable", "warning"]);
    state.css_classes = vec!["critical".into()];
    state.text = None;
    w.apply_state(&state, Orientation::Horizontal);
    assert!(!w.label_visible);
    assert_eq!(w.classes, vec!["module-item", "module-battery", "non-clickable", "critical"]);
}

#[test]
fn only_buttons_that_do_something_show_a_hand() {
    let list = |v: &[&str]| -> Vec<String> { v.iter().map(|s| s.to_string()).collect() };
    assert!(hover_pointer(&list(&["clickable"])));
    assert!(!hover_pointer(&list(&["non-clickable"])));
    assert!(hover_pointer(&list(&["non-clickable", "cursor-pointer"])));
    assert!(!hover_pointer(&list(&["clickable", "no-hover"])));
}

#[test]
fn batteries_are_found_among_the_supplies() {
    let ac = PowerSupply { name: "AC".into(), capacity: None, status: None };
    let bat = PowerSupply { name: "BAT0".into(), capacity: Some("87\n".into()), status: Some("Charging\n".into()) };
    assert_eq!(read_battery_sysfs(&vec![ac.clone(), bat.clone()]), (Some((87, "Charging".to_string())), true));
    assert_eq!(read_battery_sysfs(&vec![ac]).0, None);
    let (r, ok) = read_battery_full(Some((12, "Full".into())), &vec![bat]);
    assert_eq!((r, ok), (Some((12, "Full".to_string())), true));
    assert!(any_online(&vec!["0\n".into(), "1\n".into()]));
    assert!(!any_online(&vec!["0".into()]));
}

#[test]
fn a_battery_without_a_reading_is_shown_as_missing() {
    let mut m = BatteryModule::new(BatteryConfig::default(), None);
    assert_eq!(m.current_state(false, Orientation::Vertical).css_classes, vec!["no-battery"]);
    assert!(m.record(Some((20, "Discharging".into()))));
    assert!(!m.record(Some((20, "Discharging".into()))));
    assert!(!m.current_state(true, Orientation::Vertical).css_classes.contains(&"charging".to_string()));
    assert!(m.record(Some((20, "Unknown".into()))));
    assert!(m.current_state(true, Orientation::Vertical).css_classes.contains(&"charging".to_string()));
}

#[test]
fn a_switch_holds_bluetooth_back() {
    let on = RadioSwitch { kind: "bluetooth\n".into(), state: "1\n".into() };
    let off = RadioSwitch { kind: "bluetooth".into(), state: "0".into() };
    let wlan = RadioSwitch { kind: "wlan".into(), state: "0".into() };
    assert_eq!(read_rfkill(&vec![wlan.clone(), on.clone()]), (true, true));
    assert_eq!(read_rfkill(&vec![on, off]), (true, false));
    assert_eq!(read_rfkill(&vec![wlan]), (false, true));
    assert_eq!(
        BluetoothModule::read_bluetooth_state_full((true, false), Some(BluetoothState::On)),
        (BluetoothState::Off, true)
    );
    assert_eq!(BluetoothModule::read_bluetooth_state((true, true), Some(BluetoothState::On)), BluetoothState::On);
    assert_eq!(BluetoothModule::read_bluetooth_state_full((false, true), None), (BluetoothState::Off, false));
}

#[test]
fn the_objects_of_the_bus_give_the_state() {
    let adapter = |powered: bool| BusInterface {
        name: "org.bluez.Adapter1".into(),
        props: vec![("Powered".into(), Variant::Bool(powered))],
    };
    let device = BusInterface {
        name: "org.bluez.Device1".into(),
        props: vec![("Connected".into(), Variant::Bool(true)), ("Alias".into(), text("Buds"))],
    };
    assert_eq!(read_managed_objects(&vec![adapter(false)]), Some(BluetoothState::Off));
    assert_eq!(
        read_managed_objects(&vec![device, adapter(true)]),
        Some(BluetoothState::Connected { count: 1, device_name: Some("Buds".into()) })
    );
}

#[test]
fn switching_bluetooth_follows_its_state() {
    assert_eq!(
        toggle_command(&BluetoothState::On, true),
        Some("bluetoothctl power off && rfkill block bluetooth")
    );
    assert_eq!(
        toggle_command(&BluetoothState::Off, true),
        Some("rfkill unblock bluetooth && bluetoothctl power on")
    );
    assert_eq!(toggle_command(&BluetoothState::On, false), None);
    let mut m = BluetoothModule::new(BluetoothConfig::default(), BluetoothState::On);
    let click = m.handle_click(MouseButton::Left);
    assert!(click.toggle && click.command.is_none());
    assert_eq!(m.last, BluetoothState::Loading);
    let click = m.handle_click(MouseButton::Right);
    assert!(!click.toggle && click.command.is_none());
}

#[test]
fn a_trigger_is_followed_closely() {
    let mut w = BluetoothWorker::new(BluetoothState::Off);
    let s = w.step(false, &BluetoothState::Off, true);
    assert!(!s.changed);
    assert_eq!(s.wait_ms, 2000);
    let s = w.step(true, &BluetoothState::Off, true);
    assert!(s.changed);
    assert_eq!(s.wait_ms, 100);
    assert_eq!(w.fast_ticks, TRIGGER_TICKS - 1);
    let mut w = BluetoothWorker::new(BluetoothState::Loading);
    assert_eq!(w.step(false, &BluetoothState::Loading, true).wait_ms, 100);
}

#[test]
fn a_backlight_is_found_and_set() {
    let bad = Backlight { name: "a".into(), brightness: Some("x".into()), max_brightness: Some("10".into()) };
    let good = Backlight { name: "intel".into(), brightness: Some("5\n".into()), max_brightness: Some("10\n".into()) };
    assert_eq!(get_backlight_device(&vec![bad, good]), Some(("intel".to_string(), 5, 10)));
    let args = set_brightness_args("intel_backlight", 7, 10).unwrap();
    assert_eq!(args.last().map(|s| s.as_str()), Some("7"));
    assert_eq!(args[7], "intel_backlight");
    assert_eq!(set_brightness_args("../x", 7, 10), None);
}

#[test]
fn scrolling_the_brightness_stays_in_range() {
    let mut m = BrightnessModule::new(BrightnessConfig::default(), Some(95));
    assert_eq!(m.handle_scroll(ScrollDirection::Up, true), Some(100));
    for _ in 0..20 {
        m.handle_scroll(ScrollDirection::Down, true);
    }
    let low = m.handle_scroll(ScrollDirection::Down, true).unwrap();
    assert!(low <= 10);
    let mut none = BrightnessModule::new(BrightnessConfig::default(), None);
    assert_eq!(none.handle_scroll(ScrollDirection::Up, false), None);
    assert_eq!(none.current_state(Orientation::Vertical).css_classes, vec!["no-device"]);
    assert!(none.record(Some(3)));
}

#[test]
fn the_clock_is_shown_by_its_format() {
    let clock = ClockModule::new(ClockConfig {
        format_vertical: "%H\n%M".to_string(),
        format_horizontal: "%H:%M".to_string(),
        ..Default::default()
    });
    let shown = clock.current_state(&noon(), Orientation::Vertical).unwrap();
    assert_eq!(shown.text.as_deref(), Some("12\n00"));
    let bad = ClockModule::new(ClockConfig { format_vertical: "%Q".to_string(), ..Default::default() });
    assert!(bad.current_state(&noon(), Orientation::Vertical).is_none());
}

#[test]
fn the_clock_ticks_by_what_it_shows() {
    let minutes = ClockConfig::default();
    let mut t = ClockTicker::new(&minutes);
    assert_eq!(t.interval_ms(), 1000);
    assert!(t.tick(1, 30));
    assert!(!t.tick(2, 30));
    assert!(t.tick(2, 31));
    let mut s = ClockTicker::new(&ClockConfig { format_horizontal: "%T".into(), ..ClockConfig::default() });
    assert_eq!(s.interval_ms(), 250);
    assert!(s.tick(1, 30));
    assert!(s.tick(2, 30));
}

#[test]
fn memory_is_read_from_the_system() {
    let info = "MemTotal:       16000000 kB\nMemFree:        1 kB\nMemAvailable:   6000000 kB\n";
    assert_eq!(parse_meminfo(info), (vec!["16000000".to_string()], vec!["6000000".to_string()]));
    assert_eq!(parse_meminfo(""), (vec![], vec![]));
    let odd = "MemTotal:\nMemTotal: 1.5 kB\n MemTotal: 2 kB\nMemTotal: 1e6\nMemAvailable: much\n";
    let (totals, available) = parse_meminfo(odd);
    assert_eq!(totals, vec!["1.5", "1e6"]);
    assert_eq!(available, vec!["much"]);
    let m = MemoryModule::new(MemoryConfig::default());
    assert_eq!(m.current_state(None, Orientation::Vertical).css_classes, vec!["unavailable"]);
    let shown = m.current_state(Some(("1.0", "2.0", "50")), Orientation::Vertical);
    assert_eq!(shown.tooltip.as_deref(), Some("1.0G / 2.0G (50%)"));
}

#[test]
fn virtual_interfaces_do_not_count() {
    assert!(is_virtual_interface("docker0"));
    assert!(!is_virtual_interface("wlan0"));
    let docker = Some(DefaultInterface { name: "docker0".into(), wireless: false, device: true });
    let links = vec![Link { name: "docker0".into(), operstate: "up".into() }];
    assert_eq!(
        read_network_state_full(None, &docker, &links, true),
        ((NetworkType::Disconnected, None), true)
    );
    let wlan = Some(DefaultInterface { name: "wlp2s0".into(), wireless: false, device: true });
    assert_eq!(read_network_state_full(None, &wlan, &links, true).0 .0, NetworkType::Wifi);
    let told = Some((NetworkType::Wifi, Some("home".to_string())));
    assert_eq!(
        read_network_state_full(told, &None, &vec![], false),
        ((NetworkType::Wifi, Some("home".to_string())), true)
    );
}

#[test]
fn the_default_route_with_the_lowest_metric_is_used() {
    let v4 = "Iface\tDestination\tGateway\tFlags\tRefCnt\tUse\tMetric\tMask\n\
              eth0\t00000000\t0101A8C0\t0003\t0\t0\t200\t00000000\n\
              wlan0\t00000000\t0101A8C0\t0003\t0\t0\t100\t00000000\n\
              eth1\t0000A8C0\t00000000\t0001\t0\t0\t1\t00FFFFFF\n";
    assert_eq!(get_active_default_interface(Some(v4), None).as_deref(), Some("wlan0"));
    assert_eq!(get_active_default_interface(None, None), None);
}

#[test]
fn connections_of_the_service_are_tried_in_order() {
    let paths = candidate_paths(Some("/b"), &vec!["/a".into(), "/b".into()]);
    assert_eq!(paths, vec!["/b"]);
    assert_eq!(candidate_paths(Some("/"), &vec!["/a".into(), "".into(), "/b".into()]), vec!["/a", "/b"]);
    let conns = vec![
        ("loopback".to_string(), "lo".to_string()),
        ("802-11-wireless".to_string(), "home".to_string()),
    ];
    assert_eq!(first_connection(&conns), Some((NetworkType::Wifi, Some("home".to_string()))));
    assert_eq!(first_connection(&vec![]), None);
}

#[test]
fn a_new_network_is_shown() {
    let mut m = NetworkModule::new(NetworkConfig::default(), (NetworkType::Disconnected, None));
    assert!(!m.record((NetworkType::Disconnected, None)));
    assert!(m.record((NetworkType::Wifi, None)));
    assert_eq!(m.current_state(Orientation::Vertical).tooltip.as_deref(), Some("Wi-Fi"));
}

#[test]
fn test_subscribe_to_and_broadcast_roundtrip() {
    let mut subs: ModuleSubscribers = Vec::new();
    let rx = subscribe_to(&mut subs, Orientation::Vertical);
    assert_eq!(subs.len(), 1);

    broadcast(&mut subs, |_| ModuleState {
        icon: None,
        text: Some("hi".into()),
        tooltip: None,
        css_classes: vec!["x".into()],
    });
    let state = rx.try_recv().expect("broadcast must deliver");
    assert_eq!(state.text.as_deref(), Some("hi"));
}

#[test]
fn buttons_that_are_gone_are_forgotten() {
    let mut subs: ModuleSubscribers = Vec::new();
    let gone = subscribe_to(&mut subs, Orientation::Vertical);
    let left = subscribe_to(&mut subs, Orientation::Horizontal);
    gone.close();
    broadcast(&mut subs, |o| ModuleState {
        icon: None,
        text: Some(format!("{o:?}")),
        tooltip: None,
        css_classes: Vec::new(),
    });
    assert_eq!(subs.len(), 1);
    assert_eq!(subs[0].1, Orientation::Horizontal);
    assert_eq!(left.try_recv().unwrap().text.as_deref(), Some("Horizontal"));
    assert!(gone.try_recv().is_err());
}

#[test]
fn test_nudge_delivers_and_tolerates_close() {
    let (tx, rx) = async_channel::unbounded::<()>();
    nudge(&tx);
    assert!(rx.try_recv().is_ok());
    // A closed receiver is no error.
    rx.close();
    nudge(&tx);
}

#[test]
fn only_closed_channels_are_dropped() {
    let mut names = vec!["a", "b", "c"];
    keep_open(&mut names, &vec![Delivery::Sent, Delivery::Closed, Delivery::Refused]);
    assert_eq!(names, vec!["a", "c"]);
}

#[test]
fn the_last_figures_that_are_numbers_count() {
    assert_eq!(choose_figures(&vec![Figure::Positive], &vec![Figure::Positive]), Some((0, Some(0))));
    assert_eq!(
        choose_figures(&vec![Figure::NotPositive, Figure::Positive, Figure::Unreadable], &vec![]),
        Some((1, None))
    );
    assert_eq!(choose_figures(&vec![Figure::Positive], &vec![Figure::NotPositive, Figure::Unreadable]), Some((0, Some(0))));
    // The memory is unknown without a total above zero.
    assert_eq!(choose_figures(&vec![Figure::Positive, Figure::NotPositive], &vec![Figure::Positive]), None);
    assert_eq!(choose_figures(&vec![Figure::Unreadable], &vec![Figure::Positive]), None);
    assert_eq!(choose_figures(&vec![], &vec![]), None);
}

#[test]
fn each_button_gets_the_state_of_its_direction() {
    let mut subs: ModuleSubscribers = Vec::new();
    let _a = subscribe_to(&mut subs, Orientation::Vertical);
    let _b = subscribe_to(&mut subs, Orientation::Horizontal);
    let states = states_for(&subs, |o| ModuleState {
        icon: None,
        text: Some(format!("{o:?}")),
        tooltip: None,
        css_classes: Vec::new(),
    });
    let texts: Vec<_> = states.iter().map(|s| s.text.as_deref()).collect();
    assert_eq!(texts, vec![Some("Vertical"), Some("Horizontal")]);
}

#[test]
fn seconds_count_with_every_padding_and_fraction() {
    for part in ["%-S", "%_S", "%0S", "%-s", "%.f", "%.3f", "%6f"] {
        assert!(needs_per_second_tick("%H:%M", part), "{part}");
    }
    assert!(!needs_per_second_tick("%-H:%-M", "%-d %e %j"));
}

#[test]
fn a_message_is_sent_or_its_channel_is_closed_or_it_is_refused() {
    assert_eq!(delivery_of(true, false), Delivery::Sent);
    assert_eq!(delivery_of(true, true), Delivery::Sent);
    assert_eq!(delivery_of(false, true), Delivery::Closed);
    assert_eq!(delivery_of(false, false), Delivery::Refused);
}

#[test]
fn a_button_is_added_with_the_ends_of_its_channel() {
    let mut subs: ModuleSubscribers = Vec::new();
    let (tx, rx) = async_channel::unbounded();
    let given = add_subscriber(&mut subs, tx, rx, Orientation::Horizontal);
    assert_eq!(subs.len(), 1);
    assert_eq!(subs[0].1, Orientation::Horizontal);
    assert!(subs[0].0.try_send(ModuleState::default()).is_ok());
    assert!(given.try_recv().is_ok());
}
