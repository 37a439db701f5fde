use niri_bar::config::VolumeConfig;
use niri_bar::modules::volume::{
    next_sink, AudioPoll, SinkInfo, SinkType, VolumeClick, VolumeModule, POLLS_PER_RESTART,
};
use niri_bar::modules::{MouseButton, Orientation, ScrollDirection};
use niri_bar::names::NameMap;

fn sink(name: &str, desc: &str, sink_type: SinkType, is_bluetooth: bool) -> SinkInfo {
    SinkInfo { name: name.to_string(), description: desc.to_string(), sink_type, is_bluetooth }
}

fn speaker() -> SinkInfo {
    sink("default_speaker", "Speaker", SinkType::Speaker, false)
}

fn bluetooth_headset(name: &str, desc: &str) -> SinkInfo {
    sink(name, desc, SinkType::Bluetooth, true)
}

fn headphones(name: &str, desc: &str) -> SinkInfo {
    sink(name, desc, SinkType::Headphones, false)
}

fn hdmi(name: &str, desc: &str) -> SinkInfo {
    sink(name, desc, SinkType::Hdmi, false)
}

const TWO_SINKS: &str = "Audio\n \u{251c}\u{2500} Sinks:\n \u{2502}      57. First   [vol: 1.00]\n \u{2502}  *   62. Second   [vol: 0.80]\n";

#[test]
fn test_volume_format_and_levels() {
    let config = VolumeConfig::default();
    let speaker = speaker();

    // 0%
    let s0 = VolumeModule::format_state_with_config(&config, 0, false, &speaker, Orientation::Vertical);
    assert_eq!(s0.text.as_deref(), Some("\n0%"));
    assert!(s0.css_classes.contains(&"level-0".to_string()));
    assert!(s0.css_classes.contains(&"muted".to_string()));
    assert!(s0.css_classes.contains(&"sink-speaker".to_string()));

    // 20% -> level-1 (1 wave), NOT muted
    let s20 = VolumeModule::format_state_with_config(&config, 20, false, &speaker, Orientation::Vertical);
    assert_eq!(s20.text.as_deref(), Some("\n20%"));
    assert!(s20.css_classes.contains(&"level-1".to_string()));
    assert!(!s20.css_classes.contains(&"muted".to_string()));

    // 50% -> level-1 (1 wave)
    let s50 = VolumeModule::format_state_with_config(&config, 50, false, &speaker, Orientation::Vertical);
    assert_eq!(s50.text.as_deref(), Some("\n50%"));
    assert!(s50.css_classes.contains(&"level-1".to_string()));

    // 80% -> level-1 (1 wave)
    let s80 = VolumeModule::format_state_with_config(&config, 80, false, &speaker, Orientation::Vertical);
    assert_eq!(s80.text.as_deref(), Some("\n80%"));
    assert!(s80.css_classes.contains(&"level-1".to_string()));

    // 100% -> level-100 (max volume icon only at exactly 100%)
    let s100 = VolumeModule::format_state_with_config(&config, 100, false, &speaker, Orientation::Vertical);
    assert_eq!(s100.text.as_deref(), Some("\n100%"));
    assert!(s100.css_classes.contains(&"level-100".to_string()));

    // Muted
    let s_mut = VolumeModule::format_state_with_config(&config, 80, true, &speaker, Orientation::Vertical);
    assert_eq!(s_mut.text.as_deref(), Some("\nM"));
    assert!(s_mut.css_classes.contains(&"muted".to_string()));
    assert_eq!(s_mut.tooltip.as_deref(), Some("[Speaker] Speaker"));
}

#[test]
fn test_volume_output_icons_and_classes() {
    let config = VolumeConfig::default();

    // Bluetooth headset
    let bt = bluetooth_headset("bluez_sink", "Pixel Buds Pro 2");
    let s_bt = VolumeModule::format_state_with_config(&config, 80, false, &bt, Orientation::Vertical);
    assert_eq!(s_bt.text.as_deref(), Some("󰋋\n80%"));
    assert!(s_bt.css_classes.contains(&"sink-bluetooth".to_string()));
    assert!(s_bt.css_classes.contains(&"sink-headphones".to_string()));
    assert_eq!(s_bt.tooltip.as_deref(), Some("[Bluetooth] Pixel Buds Pro 2"));

    // Bluetooth muted
    let s_bt_mut = VolumeModule::format_state_with_config(&config, 80, true, &bt, Orientation::Vertical);
    assert_eq!(s_bt_mut.text.as_deref(), Some("󰋋\nM"));

    // Wired Headphones
    let hp = headphones("alsa_hp", "Audio Technica M50x");
    let s_hp = VolumeModule::format_state_with_config(&config, 65, false, &hp, Orientation::Vertical);
    assert_eq!(s_hp.text.as_deref(), Some("󰋋\n65%"));
    assert!(s_hp.css_classes.contains(&"sink-headphones".to_string()));

    // HDMI
    let hdmi = hdmi("alsa_hdmi", "LG TV HDMI");
    let s_hdmi = VolumeModule::format_state_with_config(&config, 50, false, &hdmi, Orientation::Vertical);
    assert_eq!(s_hdmi.text.as_deref(), Some("󰍹\n50%"));
    assert!(s_hdmi.css_classes.contains(&"sink-hdmi".to_string()));
}

#[test]
fn test_volume_custom_output_levels() {
    let mut custom_bt = NameMap::new();
    custom_bt.insert("0".to_string(), "󰂰\n%v%".to_string());
    custom_bt.insert("1".to_string(), "󰂯\n%v%".to_string());
    custom_bt.insert("muted".to_string(), "󰂲\nM".to_string());

    let config = VolumeConfig {
        levels_bluetooth: Some(custom_bt),
        ..Default::default()
    };

    let bt = bluetooth_headset("bluez_sink", "Pixel Buds Pro 2");
    let s_bt = VolumeModule::format_state_with_config(&config, 75, false, &bt, Orientation::Vertical);
    assert_eq!(s_bt.text.as_deref(), Some("󰂯\n75%"));

    let s_bt_mut = VolumeModule::format_state_with_config(&config, 75, true, &bt, Orientation::Vertical);
    assert_eq!(s_bt_mut.text.as_deref(), Some("󰂲\nM"));
}

#[test]
fn test_volume_click_behavior() {
    let config = VolumeConfig::default();
    let mut module = VolumeModule::new(config);

    // When volume is 0, clicking left should set volume to step (10) and un-mute
    module.current_vol = 0;
    module.is_muted = true;
    module.handle_click(MouseButton::Left);
    assert_eq!(module.current_vol, 10);
    assert!(!module.is_muted);

    // When volume is 50, clicking left should toggle mute while preserving volume 50
    module.current_vol = 50;
    module.is_muted = false;
    module.handle_click(MouseButton::Left);
    assert_eq!(module.current_vol, 50);
    assert!(module.is_muted);

    // Clicking left again un-mutes and retains volume 50
    module.handle_click(MouseButton::Left);
    assert_eq!(module.current_vol, 50);
    assert!(!module.is_muted);

    // Middle click with default config (None) is a no-op
    module.handle_click(MouseButton::Middle);
    assert_eq!(module.current_vol, 50);
    assert!(!module.is_muted);
}

#[test]
fn test_format_scroll_command() {
    // Default step (10) and default max (100)
    let cmd_up = VolumeModule::format_scroll_command(0, 0, ScrollDirection::Up);
    assert_eq!(
        cmd_up,
        "wpctl set-mute @DEFAULT_AUDIO_SINK@ 0 && wpctl set-volume -l 1.00 @DEFAULT_AUDIO_SINK@ 10%+"
    );

    let cmd_down = VolumeModule::format_scroll_command(0, 0, ScrollDirection::Down);
    assert_eq!(
        cmd_down,
        "wpctl set-mute @DEFAULT_AUDIO_SINK@ 0 && wpctl set-volume -l 1.00 @DEFAULT_AUDIO_SINK@ 10%-"
    );

    // Custom step (5) and custom max (150)
    let cmd_custom_up = VolumeModule::format_scroll_command(5, 150, ScrollDirection::Up);
    assert_eq!(
        cmd_custom_up,
        "wpctl set-mute @DEFAULT_AUDIO_SINK@ 0 && wpctl set-volume -l 1.50 @DEFAULT_AUDIO_SINK@ 5%+"
    );

    let cmd_custom_down = VolumeModule::format_scroll_command(5, 150, ScrollDirection::Down);
    assert_eq!(
        cmd_custom_down,
        "wpctl set-mute @DEFAULT_AUDIO_SINK@ 0 && wpctl set-volume -l 1.50 @DEFAULT_AUDIO_SINK@ 5%-"
    );
}

#[test]
fn test_volume_overamplification_format() {
    let config = VolumeConfig {
        max_volume: 150,
        ..Default::default()
    };
    let speaker = speaker();
    let s = VolumeModule::format_state_with_config(&config, 150, false, &speaker, Orientation::Vertical);
    assert_eq!(s.text.as_deref(), Some("\n150%"));
    assert!(s.css_classes.contains(&"level-100".to_string()));
    assert_eq!(s.tooltip.as_deref(), Some("[Speaker] Speaker"));
}

#[test]
fn test_adapt_icon_for_all_sink_types() {
    // Speaker keeps original icons
    assert_eq!(
        VolumeModule::adapt_icon_for_sink("\n50%", 50, false, &SinkType::Speaker),
        "\n50%"
    );
    assert_eq!(
        VolumeModule::adapt_icon_for_sink("\nM", 50, true, &SinkType::Speaker),
        "\nM"
    );

    // Headset / Bluetooth / Headphones adapt to 󰋋
    assert_eq!(
        VolumeModule::adapt_icon_for_sink("\n50%", 50, false, &SinkType::Headset),
        "󰋋\n50%"
    );
    assert_eq!(
        VolumeModule::adapt_icon_for_sink("\n100%", 100, false, &SinkType::Bluetooth),
        "󰋋\n100%"
    );
    assert_eq!(
        VolumeModule::adapt_icon_for_sink("\nM", 50, true, &SinkType::Headphones),
        "󰋋\nM"
    );

    // HDMI adapts to 󰍹
    assert_eq!(
        VolumeModule::adapt_icon_for_sink("\n50%", 50, false, &SinkType::Hdmi),
        "󰍹\n50%"
    );
}

#[test]
fn test_live_system_sinks_query() {
    let current = VolumeModule::read_current_sink(None);
    assert!(!current.name.is_empty());
}

#[test]
fn test_parse_wpctl_sinks() {
    let wpctl_output = r#"
PipeWire 'pipewire-0' [1.6.9, user@linux, cookie:3057743936]
 └─ Clients:
        33. WirePlumber                         [1.6.9, user@linux, pid:1382]

Audio
 ├─ Devices:
 │      49. GA106 High Definition Audio Controller [alsa]
 │      50. Ryzen HD Audio Controller           [alsa]
 │  
 ├─ Sinks:
 │  *   57. Ryzen HD Audio Controller Speaker   [vol: 1.16]
 │      62. WH-1000XM4 Wireless Headphones     [vol: 0.80]
 │  
 ├─ Sources:
 │      58. Ryzen HD Audio Controller Stereo Microphone [vol: 1.00]
 │  *   59. Ryzen HD Audio Controller Digital Microphone [vol: 1.00]
"#;
    let (sinks, default_idx) = VolumeModule::parse_wpctl_sinks(wpctl_output);
    assert_eq!(sinks.len(), 2);
    assert_eq!(sinks[0].name, "57");
    assert_eq!(sinks[0].description, "Ryzen HD Audio Controller Speaker");
    assert_eq!(sinks[0].sink_type, SinkType::Speaker);
    assert_eq!(sinks[1].name, "62");
    assert_eq!(sinks[1].description, "WH-1000XM4 Wireless Headphones");
    assert_eq!(sinks[1].sink_type, SinkType::Headphones);
    assert_eq!(default_idx, Some(0));
}

#[test]
fn test_parse_wpctl_sinks_garbage() {
    // Empty, garbage, and header-only outputs must yield no sinks —
    // never panic, never fabricate.
    for garbage in ["", "\n\n", "not pipewire output\n{{{\n", "Audio\n  ├─ Sinks:\n"] {
        let (sinks, default_idx) = VolumeModule::parse_wpctl_sinks(garbage);
        assert!(sinks.is_empty(), "garbage parsed as sinks: {garbage:?}");
        assert_eq!(default_idx, None);
    }
    // Non-numeric sink ids are skipped, valid ones kept.
    let mixed =
        "Audio\n  ├─ Sinks:\n  │  *   abc. Weird Sink   [vol: 1.00]\n  │      62. Real Sink   [vol: 0.80]\n";
    let (sinks, default_idx) = VolumeModule::parse_wpctl_sinks(mixed);
    assert_eq!(sinks.len(), 1);
    assert_eq!(sinks[0].name, "62");
    assert_eq!(default_idx, None);
}

#[test]
fn test_is_volume_event_line() {
    assert!(VolumeModule::is_volume_event_line(
        "Prop: key Spa:Pod:Object:Param:Props:channelVolumes (65544)"
    ));
    assert!(VolumeModule::is_volume_event_line(
        "Prop: key Spa:Pod:Object:Param:Props:mute (65540)"
    ));
    assert!(VolumeModule::is_volume_event_line(
        "Prop: key Spa:Pod:Object:Param:Props:volume (65539)"
    ));
    assert!(VolumeModule::is_volume_event_line("Audio/Sink"));
    assert!(VolumeModule::is_volume_event_line("ParamId:Route"));
    assert!(!VolumeModule::is_volume_event_line("core.name = \"pipewire-0\""));
}

#[test]
fn test_classify_sink() {
    let n = VolumeModule::classify_sink;
    // Plain speaker is the default.
    assert_eq!(
        n("alsa_output", "Ryzen HD Audio Speaker", None, None, None, None).0,
        SinkType::Speaker
    );
    // Bluetooth via bus, bluez_ prefix, or icon.
    assert!(n("bluez_sink.01", "Speaker", None, None, None, None).1);
    assert_eq!(
        n("bluez_sink.01", "Speaker", None, None, None, None).0,
        SinkType::Bluetooth
    );
    assert!(
        n(
            "alsa_bt",
            "Speaker",
            None,
            Some("audio-bluetooth"),
            Some("bluetooth"),
            None
        )
        .1
    );
    // Bluetooth headphones keep the Bluetooth type (not plain Headphones).
    assert_eq!(
        n("bluez_sink.01", "WH-1000XM4", None, None, Some("bluetooth"), None).0,
        SinkType::Bluetooth
    );
    // Wired headphones via form factor, desc keywords, or port.
    assert_eq!(
        n("alsa_hp", "Headphones", Some("headphone"), None, None, None).0,
        SinkType::Headphones
    );
    assert_eq!(
        n("alsa_hp", "Pixel Buds Pro", None, None, None, None).0,
        SinkType::Headphones
    );
    assert_eq!(n("alsa_hp", "AirPods", None, None, None, None).0, SinkType::Headphones);
    assert_eq!(
        n("alsa_hp", "Output", None, None, None, Some("headphone")).0,
        SinkType::Headphones
    );
    // Headset without headphone markers.
    assert_eq!(
        n("usb_dongle", "Jabra Headset", None, None, None, None).0,
        SinkType::Headset
    );
    // HDMI via name, desc, or DisplayPort alias.
    assert_eq!(n("alsa_hdmi", "Output", None, None, None, None).0, SinkType::Hdmi);
    assert_eq!(
        n("alsa_dp", "DisplayPort Monitor", None, None, None, None).0,
        SinkType::Hdmi
    );
}

#[test]
fn outputs_go_round() {
    assert_eq!(next_sink(TWO_SINKS).as_deref(), Some("57"));
    let first = TWO_SINKS.replace("     57", " *   57").replace("*   62", "    62");
    assert_eq!(next_sink(&first).as_deref(), Some("62"));
    assert_eq!(next_sink(""), None);
}

#[test]
fn the_default_output_is_the_one_in_use() {
    assert_eq!(VolumeModule::read_current_sink(Some(TWO_SINKS)).name, "62");
    assert_eq!(VolumeModule::read_current_sink(Some("")).name, "@DEFAULT_AUDIO_SINK@");
}

#[test]
fn the_volume_is_read_with_its_mark() {
    assert_eq!(VolumeModule::read_system_volume(Some("Volume: 0.40 [MUTED]"), Some(40)), (40, true));
    assert_eq!(VolumeModule::read_system_volume(Some("Volume: 0.40"), Some(40)), (40, false));
    assert_eq!(VolumeModule::read_system_volume(None, None), (50, false));
}

#[test]
fn a_volume_that_changes_while_muted_is_heard() {
    let mut m = VolumeModule::new(VolumeConfig::default());
    m.is_muted = true;
    let c = m.apply(60, true, &speaker());
    assert!(c.unmute && c.changed);
    assert!(!m.is_muted);
    assert_eq!(m.current_vol, 60);
    let c = m.apply(60, false, &speaker());
    assert!(!c.unmute && !c.changed);
    let c = m.apply(60, false, &hdmi("a", "b"));
    assert!(c.changed);
}

#[test]
fn clicks_run_commands_or_act() {
    let mut m = VolumeModule::new(VolumeConfig::default());
    assert_eq!(m.handle_click(MouseButton::Right), VolumeClick::CycleSink);
    assert_eq!(m.handle_click(MouseButton::Middle), VolumeClick::Nothing);
    m.config.click.on_click_right = Some("pavucontrol".into());
    assert_eq!(m.handle_click(MouseButton::Right), VolumeClick::Run("pavucontrol".into()));
    m.current_vol = 0;
    match m.handle_click(MouseButton::Left) {
        VolumeClick::Change(c) => assert_eq!(
            c,
            "wpctl set-mute @DEFAULT_AUDIO_SINK@ 0 && wpctl set-volume -l 1.50 @DEFAULT_AUDIO_SINK@ 0.10"
        ),
        other => panic!("{other:?}"),
    }
}

#[test]
fn steps_of_scrolling_in_quick_succession_are_one() {
    let mut last: u64 = 0;
    let m = VolumeModule::new(VolumeConfig::default());
    assert!(m.handle_scroll(ScrollDirection::Up, &mut last, 1_000).is_some());
    assert!(m.handle_scroll(ScrollDirection::Up, &mut last, 1_059).is_none());
    let reloaded = VolumeModule::new(VolumeConfig::default());
    assert!(reloaded.handle_scroll(ScrollDirection::Up, &mut last, 1_059).is_none());
    assert!(reloaded.handle_scroll(ScrollDirection::Down, &mut last, 1_060).is_some());
    assert_eq!(last, 1_060);
}

#[test]
fn polls_slow_down_while_the_service_is_away() {
    let mut p = AudioPoll::new();
    assert_eq!(p.next_wait(true, "57"), 250);
    assert_eq!(p.next_wait(false, "57"), 500);
    assert_eq!(p.next_wait(true, "@DEFAULT_AUDIO_SINK@"), 1000);
    for _ in 0..9 {
        p.next_wait(false, "57");
    }
    assert_eq!(p.next_wait(false, "57"), 5000);
    assert_eq!(p.next_wait(true, "57"), 250);
}

#[test]
fn the_monitor_is_started_again_after_many_polls() {
    let mut p = AudioPoll::new();
    for _ in 0..POLLS_PER_RESTART - 1 {
        assert!(!p.poll_done());
    }
    assert!(p.poll_done());
    assert_eq!(POLLS_PER_RESTART, 120);
}

#[test]
fn outputs_are_classified_by_words_in_lower_case() {
    assert_eq!(
        VolumeModule::classify_lowered("alsa", "usb headset", "", "", "", ""),
        (SinkType::Headset, false)
    );
    assert_eq!(
        VolumeModule::classify_lowered("bluez_1", "speaker", "", "", "", ""),
        (SinkType::Bluetooth, true)
    );
    assert_eq!(VolumeModule::classify_lowered("alsa", "USB HEADSET", "", "", "", ""), (SinkType::Speaker, false));
}
