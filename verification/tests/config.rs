use niri_bar::config::{
    config_warnings, default_network_modes, default_volume_levels, get_config_dir, load_config_with_error,
    parse_config_table, reload_config, reload_config_from_str, resolve_level, resolve_mode, text_warnings,
    unknown_names, AppConfig, BarPosition, ConfigFile, Section, Templates, VolumeConfig, DEFAULT_CONFIG_TOML,
};
use niri_bar::modules::clock::ClockModule;
use niri_bar::modules::BarModule;
use niri_bar::toml_value;
use niri_bar::toml_value::Toml;

fn volume_section(s: &str) -> VolumeConfig {
    let t = toml_value::parse(s).expect("the text is TOML");
    VolumeConfig::read(&t, None).expect("the section can be read")
}

#[test]
fn test_resolve_level_thresholds() {
    let levels = default_volume_levels();

    // Value 0
    let (res_0, t_0) = resolve_level(&levels, 0, None);
    assert_eq!(res_0, "\n0%");
    assert_eq!(t_0, Some(0));

    // Value 25 -> highest <= 25 is 1
    let (res_25, t_25) = resolve_level(&levels, 25, None);
    assert_eq!(res_25, "\n25%");
    assert_eq!(t_25, Some(1));

    // Value 45 -> highest <= 45 is 1
    let (res_45, t_45) = resolve_level(&levels, 45, None);
    assert_eq!(res_45, "\n45%");
    assert_eq!(t_45, Some(1));

    // Value 80 -> highest <= 80 is 1
    let (res_80, t_80) = resolve_level(&levels, 80, None);
    assert_eq!(res_80, "\n80%");
    assert_eq!(t_80, Some(1));

    // Value 100
    let (res_100, t_100) = resolve_level(&levels, 100, None);
    assert_eq!(res_100, "\n100%");
    assert_eq!(t_100, Some(100));

    // Special state "muted"
    let (res_muted, t_muted) = resolve_level(&levels, 50, Some("muted"));
    assert_eq!(res_muted, "\nM");
    assert_eq!(t_muted, None);
}

#[test]
fn test_resolve_mode() {
    let modes = default_network_modes();
    let wifi = resolve_mode(&modes, "wifi", &[]);
    assert_eq!(wifi, "󰤨\nWiFi");

    let lan = resolve_mode(&modes, "lan", &[]);
    assert_eq!(lan, "󰈀\nLAN");

    let off = resolve_mode(&modes, "disconnected", &[]);
    assert_eq!(off, "󰤮\nOff");

    let mut custom_modes = Templates::new();
    custom_modes.insert("wifi".into(), "󰤨\n%s".into());
    let custom_wifi = resolve_mode(&custom_modes, "wifi", &[("%s", "MyHomeWiFi")]);
    assert_eq!(custom_wifi, "󰤨\nMyHomeWiFi");
}

#[test]
fn test_default_config_parses_successfully() {
    let cfg: AppConfig = reload_config_from_str(DEFAULT_CONFIG_TOML).expect("Default config toml must be valid");
    assert_eq!(cfg.position, BarPosition::Left);
    assert!(cfg.position.is_vertical());
    assert_eq!(cfg.size, 50);
    assert!(cfg.taskbar.enabled);
    assert_eq!(cfg.taskbar.icon_size, 32);
    assert_eq!(cfg.battery.warning_threshold, 30);
    assert_eq!(cfg.battery.critical_threshold, 15);
    assert_eq!(cfg.spacer.size, 5);
    assert_eq!(cfg.modules.start_modules(), vec!["spacer", "taskbar"]);
    assert_eq!(
        cfg.modules.end_modules(),
        vec![
            "tray",
            "volume",
            "bluetooth",
            "network",
            "memory",
            "brightness",
            "battery",
            "clock"
        ]
    );
}

#[test]
fn test_custom_granular_levels() {
    let mut custom_levels = Templates::new();
    custom_levels.insert("0%".to_string(), "LOW\n%v%".to_string());
    custom_levels.insert("10%".to_string(), "10-STEPS\n%v%".to_string());
    custom_levels.insert("20%".to_string(), "20-STEPS\n%v%".to_string());
    custom_levels.insert("30%".to_string(), "30-STEPS\n%v%".to_string());
    custom_levels.insert("40%".to_string(), "40-STEPS\n%v%".to_string());
    custom_levels.insert("50%".to_string(), "HALF\n%v%".to_string());
    custom_levels.insert("90%".to_string(), "HIGH\n%v%".to_string());

    let (res_15, t_15) = resolve_level(&custom_levels, 15, None);
    assert_eq!(res_15, "10-STEPS\n15%");
    assert_eq!(t_15, Some(10));

    let (res_35, t_35) = resolve_level(&custom_levels, 35, None);
    assert_eq!(res_35, "30-STEPS\n35%");
    assert_eq!(t_35, Some(30));

    let (res_99, t_99) = resolve_level(&custom_levels, 99, None);
    assert_eq!(res_99, "HIGH\n99%");
    assert_eq!(t_99, Some(90));
}

#[test]
fn test_volume_config_max_volume() {
    let default_cfg: VolumeConfig = volume_section("");
    assert_eq!(default_cfg.max_volume, 150);

    let custom_toml = r#"
            step = 5
            max_volume = 100
        "#;
    let custom_cfg: VolumeConfig = volume_section(custom_toml);
    assert_eq!(custom_cfg.max_volume, 100);
    assert_eq!(custom_cfg.step, 5);
}

#[test]
fn test_resolve_level_above_100() {
    let default_levels = default_volume_levels();
    let (res_150, t_150) = resolve_level(&default_levels, 150, None);
    assert_eq!(res_150, "\n150%");
    assert_eq!(t_150, Some(100));

    let mut boost_levels = default_levels.clone();
    boost_levels.insert("150".to_string(), "🔊\n%v%".to_string());
    let (res_boost, t_boost) = resolve_level(&boost_levels, 150, None);
    assert_eq!(res_boost, "🔊\n150%");
    assert_eq!(t_boost, Some(150));
}

#[test]
fn test_bar_position_vertical() {
    assert!(BarPosition::Left.is_vertical());
    assert!(BarPosition::Right.is_vertical());
    assert!(!BarPosition::Top.is_vertical());
    assert!(!BarPosition::Bottom.is_vertical());
}

#[test]
fn test_partial_config_parsing_uses_defaults() {
    // Empty TOML should parse successfully with all default values
    let cfg: AppConfig = reload_config_from_str("").expect("Empty TOML should use defaults");
    assert_eq!(cfg.position, BarPosition::Left);
    assert_eq!(cfg.size, 50);
    assert_eq!(cfg.spacing, 0);
    assert!(cfg.taskbar.enabled);
    assert_eq!(cfg.taskbar.icon_size, 32);
    assert_eq!(cfg.tray.icon_size, 22);
    assert_eq!(cfg.battery.warning_threshold, 30);
    assert_eq!(cfg.battery.critical_threshold, 15);
    assert_eq!(cfg.volume.step, 10);
    assert_eq!(cfg.volume.max_volume, 150);
    assert_eq!(cfg.brightness.step, 10);
    assert_eq!(cfg.spacer.size, 5);
}

#[test]
fn test_custom_module_order_parsing() {
    let toml_str = r#"
            [modules]
            order = ["clock", "battery", "volume"]
        "#;
    let cfg: AppConfig = reload_config_from_str(toml_str).expect("Valid modules order TOML");
    assert_eq!(cfg.modules.order, vec!["clock", "battery", "volume"]);
    assert_eq!(cfg.modules.start_modules(), vec!["spacer", "taskbar"]);
    assert_eq!(cfg.modules.end_modules(), vec!["clock", "battery", "volume"]);
}

#[test]
fn test_modules_start_and_end_parsing() {
    let toml_str = r#"
            [modules]
            start = ["spacer", "taskbar"]
        end = ["tray", "clock"]
        "#;
    let cfg: AppConfig = reload_config_from_str(toml_str).expect("Valid modules start/end TOML");
    assert_eq!(cfg.modules.start_modules(), vec!["spacer", "taskbar"]);
    assert_eq!(cfg.modules.end_modules(), vec!["tray", "clock"]);
}

#[test]
fn test_modules_default_start_and_end() {
    let cfg = AppConfig::default();
    assert_eq!(cfg.modules.start_modules(), vec!["spacer", "taskbar"]);
    assert_eq!(
        cfg.modules.end_modules(),
        vec![
            "tray",
            "volume",
            "bluetooth",
            "network",
            "memory",
            "brightness",
            "battery",
            "clock"
        ]
    );
}

#[test]
fn test_module_click_actions_parsing() {
    let toml_str = r#"
            [volume]
            on_click_left = "pavucontrol"
            on_click_right = "wpctl set-mute @DEFAULT_AUDIO_SINK@ toggle"
            on_click_middle = "playerctl play-pause"

            [bluetooth]
            on_click_left = "blueman-manager"
        on_click_right = "bluetoothctl power toggle"

            [network]
            on_click_left = "nm-connection-editor"

        [battery]
        on_click_left = "xfce4-power-manager-settings"

            [memory]
            on_click_left = "htop"

            [brightness]
            on_click_left = "brightnessctl set 50%"

            [clock]
            on_click_left = "gnome-calendar"

        [spacer]
        on_click_left = "notify-send spacer"
    "#;
    let cfg: AppConfig = reload_config_from_str(toml_str).expect("Valid click actions TOML");
    assert_eq!(cfg.volume.click.on_click_left.as_deref(), Some("pavucontrol"));
    assert_eq!(
        cfg.volume.click.on_click_right.as_deref(),
        Some("wpctl set-mute @DEFAULT_AUDIO_SINK@ toggle")
    );
    assert_eq!(
        cfg.volume.click.on_click_middle.as_deref(),
        Some("playerctl play-pause")
    );
    assert_eq!(cfg.bluetooth.click.on_click_left.as_deref(), Some("blueman-manager"));
    assert_eq!(
        cfg.bluetooth.click.on_click_right.as_deref(),
        Some("bluetoothctl power toggle")
    );
    assert_eq!(cfg.network.click.on_click_left.as_deref(), Some("nm-connection-editor"));
    assert_eq!(
        cfg.battery.click.on_click_left.as_deref(),
        Some("xfce4-power-manager-settings")
    );
    assert_eq!(cfg.memory.click.on_click_left.as_deref(), Some("htop"));
    assert_eq!(
        cfg.brightness.click.on_click_left.as_deref(),
        Some("brightnessctl set 50%")
    );
    assert_eq!(cfg.clock.click.on_click_left.as_deref(), Some("gnome-calendar"));
    assert_eq!(cfg.spacer.click.on_click_left.as_deref(), Some("notify-send spacer"));
}

#[test]
fn test_volume_sink_specific_levels() {
    let toml_str = r#"
            [volume]
            [volume.levels]
            0 = "\n0%"
            1 = "\n%v%"
            [volume.levels_bluetooth]
            0 = "󰂲\n0%"
            1 = "󰂱\n%v%"
            [volume.levels_headphones]
            0 = "󰟎\n0%"
            1 = "󰋋\n%v%"
            [volume.levels_hdmi]
            0 = "󰡁\n0%"
            1 = "󰡁\n%v%"
        "#;
    let cfg: AppConfig = reload_config_from_str(toml_str).expect("Valid sink levels TOML");
    assert!(cfg.volume.get_levels_for_sink(true, false, false).is_some());
    assert!(cfg.volume.get_levels_for_sink(false, true, false).is_some());
    assert!(cfg.volume.get_levels_for_sink(false, false, true).is_some());
    assert!(cfg.volume.get_levels_for_sink(false, false, false).is_none());

    let bt_levels = cfg.volume.get_levels_for_sink(true, false, false).unwrap();
    let (bt_res, _) = resolve_level(bt_levels, 50, None);
    assert_eq!(bt_res, "󰂱\n50%");
}

#[test]
fn test_empty_levels_numeric_resolution_fallback() {
    let empty_levels = Templates::new();
    let (res, threshold) = resolve_level(&empty_levels, 42, None);
    assert_eq!(res, "42%");
    assert_eq!(threshold, None);
}

#[test]
fn test_resolve_mode_fallback_unknown_mode() {
    let modes = Templates::new();
    let res = resolve_mode(&modes, "custom_unconfigured_mode", &[("%s", "test")]);
    assert_eq!(res, "custom_unconfigured_mode");
}

#[test]
fn test_validated_clamps_and_swaps() {
    let mut cfg = AppConfig::default();
    cfg.size = -5;
    cfg.taskbar.icon_size = 0;
    cfg.tray.icon_size = -1;
    cfg.battery.warning_threshold = 10;
    cfg.battery.critical_threshold = 30;
    let v = cfg.validated();
    assert_eq!(v.size, 50);
    assert_eq!(v.taskbar.icon_size, 32);
    assert_eq!(v.tray.icon_size, 22);
    assert!(v.battery.warning_threshold > v.battery.critical_threshold);
}

#[test]
fn test_per_section_fallback_keeps_good_sections() {
    let table: Toml = toml_value::parse(
        r#"
            position = "centre"
            size = 60
            [volume]
            step = 5
            max_volume = 150
            [battery]
            warning_threshold = "high"
            "#,
    )
    .expect("test TOML parses as generic table");
    let cfg = parse_config_table(&table);
    // Bad position falls back, good scalars/sections survive.
    assert_eq!(cfg.position, BarPosition::Left);
    assert_eq!(cfg.size, 60);
    assert_eq!(cfg.volume.step, 5);
    assert_eq!(cfg.volume.max_volume, 150);
    // Bad battery section falls back to defaults.
    assert_eq!(cfg.battery.warning_threshold, 30);
}

#[test]
fn test_section_fallback_is_per_field() {
    // One bad field costs one field, not the section: valid `step = 5`
    // survives the invalid `max_volume`, which falls back to 150.
    let table: Toml = toml_value::parse(
        r#"
            [volume]
            step = 5
            max_volume = "loud"
            "#,
    )
    .expect("test TOML parses as generic table");
    let cfg = parse_config_table(&table);
    assert_eq!(cfg.volume.step, 5);
    assert_eq!(cfg.volume.max_volume, 150);
}

#[test]
fn test_clock_on_click_survives_parsing() {
    // Regression test: a user's calendar command must survive
    // per-section parsing + validation and reach the click handler.
    let table: Toml = toml_value::parse(
        r#"
            [clock]
            format_vertical = "%H:%M"
            on_click_left = "xdg-open https://calendar.google.com/calendar"
        "#,
    )
    .expect("test TOML parses as generic table");
    let cfg = parse_config_table(&table);
    let (left, _, _) = cfg.clock.click.commands();
    assert_eq!(left, Some("xdg-open https://calendar.google.com/calendar"));

    let clock = ClockModule::new(cfg.clock);
    assert!(clock.is_clickable());
    let (left2, _, _) = clock.click_commands();
    assert_eq!(left2, Some("xdg-open https://calendar.google.com/calendar"));
}

#[test]
fn test_reload_config_from_str() {
    let valid_toml = r#"
            position = "top"
            size = 40
        "#;
    let res = reload_config_from_str(valid_toml);
    assert!(res.is_ok());
    let cfg = res.unwrap();
    assert_eq!(cfg.position, BarPosition::Top);
    assert_eq!(cfg.size, 40);

    let invalid_toml = r#"
            position = [unclosed
        "#;
    let err = reload_config_from_str(invalid_toml);
    assert!(err.is_err());
    let msg = err.unwrap_err();
    assert!(msg.to_lowercase().contains("error") || msg.to_lowercase().contains("invalid"));
}

#[test]
fn checking_a_configuration_twice_changes_nothing_more() {
    let mut cfg = AppConfig::default();
    cfg.size = 501;
    cfg.spacing = 101;
    cfg.tray.spacing = -1;
    cfg.spacer.size = 501;
    cfg.battery.warning_threshold = 5;
    cfg.battery.critical_threshold = 6;
    let once = cfg.validated();
    assert_eq!(once.size, 50);
    assert_eq!(once.spacing, 0);
    assert_eq!(once.tray.spacing, 4);
    assert_eq!(once.spacer.size, 5);
    assert_eq!(once.battery.warning_threshold, 6);
    assert_eq!(once.battery.critical_threshold, 5);
    let twice = once.validated();
    assert_eq!(twice.size, 50);
    assert_eq!(twice.battery.warning_threshold, 6);
    assert_eq!(twice.battery.critical_threshold, 5);
}

#[test]
fn equal_thresholds_stay() {
    let mut cfg = AppConfig::default();
    cfg.battery.warning_threshold = 20;
    cfg.battery.critical_threshold = 20;
    let v = cfg.validated();
    assert_eq!(v.battery.warning_threshold, 20);
    assert_eq!(v.battery.critical_threshold, 20);
}

#[test]
fn bounds_are_accepted() {
    let cfg = reload_config_from_str("size = 500\nspacing = 100\n[taskbar]\nicon_size = 256\n").unwrap();
    assert_eq!(cfg.size, 500);
    assert_eq!(cfg.spacing, 100);
    assert_eq!(cfg.taskbar.icon_size, 256);
}

#[test]
fn numbers_that_are_no_integers_fall_back() {
    let cfg = reload_config_from_str("size = \"big\"\nspacing = 1.5\n").unwrap();
    assert_eq!(cfg.size, 50);
    assert_eq!(cfg.spacing, 0);
}

#[test]
fn two_bad_fields_cost_the_section() {
    let cfg = reload_config_from_str("size = 44\n[volume]\nstep = \"x\"\nmax_volume = \"y\"\n").unwrap();
    assert_eq!(cfg.size, 44);
    assert_eq!(cfg.volume.step, 10);
    assert_eq!(cfg.volume.max_volume, 150);
}

#[test]
fn a_section_that_is_no_table_is_the_default() {
    let cfg = reload_config_from_str("battery = 7\n").unwrap();
    assert_eq!(cfg.battery.warning_threshold, 30);
    assert_eq!(cfg.battery.critical_threshold, 15);
}

#[test]
fn all_positions_are_read() {
    for (word, position) in [
        ("left", BarPosition::Left),
        ("right", BarPosition::Right),
        ("top", BarPosition::Top),
        ("bottom", BarPosition::Bottom),
    ] {
        let cfg = reload_config_from_str(&format!("position = \"{word}\"")).unwrap();
        assert_eq!(cfg.position, position);
    }
}

#[test]
fn unknown_names_at_the_top_are_listed() {
    let t = toml_value::parse("sice = 3\nsize = 4\n[clok]\n").unwrap();
    let mut names = unknown_names(&t);
    names.sort();
    assert_eq!(names, vec!["clok", "sice"]);
}

#[test]
fn the_commands_of_a_section_are_given_in_order() {
    let cfg = reload_config_from_str("[clock]\non_click_left = \"  \"\non_click_right = \"x\"\n").unwrap();
    assert_eq!(cfg.clock.click.commands(), (Some("  "), Some("x"), None));
}

#[test]
fn a_missing_file_gives_the_defaults() {
    let (cfg, err) = load_config_with_error(&ConfigFile::Missing);
    assert_eq!(cfg.size, 50);
    assert!(!cfg.modules.start_modules().is_empty());
    assert_eq!(err, None);
}

#[test]
fn an_unreadable_file_is_told() {
    let file = ConfigFile::Unreadable { path: "/x/config.toml".into(), error: "denied".into() };
    let (cfg, err) = load_config_with_error(&file);
    assert_eq!(cfg.size, 50);
    assert_eq!(err.as_deref(), Some("Config error: Failed to read /x/config.toml: denied"));
    let again = reload_config(Err(("/x/config.toml", "denied")));
    assert_eq!(again.err().as_deref(), Some("Failed to read /x/config.toml: denied"));
}

#[test]
fn a_file_that_is_no_toml_is_told() {
    let (cfg, err) = load_config_with_error(&ConfigFile::Text("size = ".into()));
    assert_eq!(cfg.size, 50);
    let words = err.unwrap();
    assert!(words.starts_with("Syntax error in config.toml: "));
    assert_eq!(reload_config(Ok("size = ")).err(), Some(words));
    assert_eq!(reload_config(Ok("size = 77")).unwrap().size, 77);
}

#[test]
fn the_configuration_directory_follows_the_environment() {
    assert_eq!(get_config_dir(Some("/cfg"), Some("/home/a")), "/cfg/niri-bar");
    assert_eq!(get_config_dir(Some("  "), Some("/home/a")), "/home/a/.config/niri-bar");
    assert_eq!(get_config_dir(None, Some("/home/a/")), "/home/a/.config/niri-bar");
    assert_eq!(get_config_dir(None, Some("")), ".config/niri-bar");
    assert_eq!(get_config_dir(None, None), ".config/niri-bar");
}

#[test]
fn values_of_all_kinds_of_toml_are_told_apart() {
    let t = toml_value::parse("a = 1\nb = \"x\"\nc = true\nd = [1, 2]\ne = 1.5\n").unwrap();
    assert!(matches!(t.get("a", 0, None), Some(Toml::Integer(1))));
    assert!(matches!(t.get("b", 0, None), Some(Toml::Text(s)) if s == "x"));
    assert!(matches!(t.get("c", 0, None), Some(Toml::Boolean(true))));
    assert!(matches!(t.get("d", 0, None), Some(Toml::Array(a)) if a.len() == 2));
    assert!(t.get("a", 0, Some("a")).is_none());
    assert!(t.get("z", 0, None).is_none());
}

#[test]
fn the_default_file_gives_no_warning() {
    assert!(text_warnings(DEFAULT_CONFIG_TOML).is_empty());
    assert!(text_warnings("size = [").is_empty());
}

#[test]
fn what_is_ignored_is_warned_of() {
    let t = toml_value::parse("sice = 3\nposition = \"centre\"\nsize = \"big\"\nspacing = 1.5\n[clok]\n").unwrap();
    assert_eq!(
        config_warnings(&t),
        vec![
            "Unknown config key 'clok', ignoring",
            "Unknown config key 'sice', ignoring",
            "Invalid [position] section; using defaults for it",
            "Invalid `size`, using 50",
            "Invalid `spacing`, using 0",
        ]
    );
}

#[test]
fn one_bad_field_is_named_and_two_cost_the_section() {
    let one = toml_value::parse("[volume]\nstep = 5\nmax_volume = \"loud\"\n").unwrap();
    assert_eq!(config_warnings(&one), vec!["Invalid [volume] field 'max_volume'; using default for it"]);
    let two = toml_value::parse("[volume]\nstep = \"x\"\nmax_volume = \"loud\"\n").unwrap();
    assert_eq!(config_warnings(&two), vec!["Invalid [volume] section; using defaults for it"]);
}

#[test]
fn numbers_that_are_replaced_are_warned_of() {
    let text = "size = 0\nspacing = -3\n[taskbar]\nicon_size = 257\n[tray]\nicon_size = 0\nspacing = 101\n\
                [spacer]\nsize = -1\n[battery]\nwarning_threshold = 10\ncritical_threshold = 20\n";
    let told = vec![
        "Invalid size 0, using 50",
        "Invalid spacing -3, using 0",
        "Invalid taskbar.icon_size, using 32",
        "Invalid tray.icon_size, using 22",
        "Invalid tray.spacing, using 4",
        "Invalid spacer.size, using 5",
        "battery.warning_threshold (10) must exceed critical (20); swapping",
    ];
    assert_eq!(config_warnings(&toml_value::parse(text).unwrap()), told);
    assert_eq!(text_warnings(text), told);
    assert!(AppConfig::default().warnings().is_empty());
    // Swapping mends nothing where the two are equal.
    let equal = "[battery]\nwarning_threshold = 20\ncritical_threshold = 20\n";
    let swap = "battery.warning_threshold (20) must exceed critical (20); swapping";
    assert_eq!(text_warnings(equal), vec![swap, swap]);
}
