use niri_bar::startup::{
    font_is_due, font_place, help_text, is_single_instance, on_file_change, parse_early_args, plan_monitors,
    watch_target_for_filenames, ActiveError, ConnectedMonitor, EarlyAction, FileChange, NameReply,
    ReconcileFlags, ReloadTimers, WatchReaction, WatchTarget, DEBOUNCE_MS,
};

fn args(v: &[&str]) -> Vec<String> {
    v.iter().map(|s| s.to_string()).collect()
}

#[test]
fn test_parse_early_args() {
    assert_eq!(parse_early_args(&args(&["niri-bar"])), EarlyAction::Run);
    assert_eq!(
        parse_early_args(&args(&["niri-bar", "--version"])),
        EarlyAction::Version
    );
    assert_eq!(parse_early_args(&args(&["niri-bar", "-V"])), EarlyAction::Version);
    assert_eq!(parse_early_args(&args(&["niri-bar", "--help"])), EarlyAction::Help);
    assert_eq!(parse_early_args(&args(&["niri-bar", "--check"])), EarlyAction::Check);
}

#[test]
fn test_watch_target_for_filenames() {
    // Direct hits on either side (covers atomic renames where Gio
    // reports the tmp name in `file` and the real name in `other`).
    assert_eq!(
        watch_target_for_filenames(Some("config.toml"), None),
        Some("config.toml")
    );
    assert_eq!(watch_target_for_filenames(Some("style.css"), None), Some("style.css"));
    assert_eq!(
        watch_target_for_filenames(Some("config.toml.tmp"), Some("config.toml")),
        Some("config.toml")
    );
    assert_eq!(
        watch_target_for_filenames(Some("goutputstream-XXXX"), Some("style.css")),
        Some("style.css")
    );
    // Unrelated files ignored.
    assert_eq!(watch_target_for_filenames(Some("other.txt"), None), None);
    assert_eq!(watch_target_for_filenames(None, None), None);
    assert_eq!(watch_target_for_filenames(Some("CONFIG.TOML"), None), None);
}

#[test]
fn test_active_error_prefers_config_and_tracks_slots() {
    let mut err = ActiveError::default();
    assert!(err.is_empty());
    assert_eq!(err.message(), None);

    err.style = Some("css bad".into());
    assert!(!err.is_empty());
    assert_eq!(err.message(), Some("css bad"));

    // Config takes precedence but doesn't drop the style slot.
    err.config = Some("toml bad".into());
    assert_eq!(err.message(), Some("toml bad"));

    // Fixing style leaves config visible; fixing config reveals style.
    err.style = None;
    assert_eq!(err.message(), Some("toml bad"));
    err.config = None;
    assert!(err.is_empty());
}

#[test]
fn the_first_argument_that_asks_for_something_counts() {
    assert_eq!(parse_early_args(&args(&["niri-bar", "x", "-h", "--version"])), EarlyAction::Help);
    assert_eq!(parse_early_args(&args(&["--help"])), EarlyAction::Run);
}

#[test]
fn help_names_the_version() {
    let help = help_text("1.2.3");
    assert!(help.starts_with("niri-bar v1.2.3\n"));
    assert!(help.contains("--check      Validate config + CSS and exit (0 ok, 1 error)"));
}

#[test]
fn another_owner_of_the_name_refuses() {
    assert!(is_single_instance(NameReply::NoAnswer));
    assert!(is_single_instance(NameReply::Code(1)));
    assert!(!is_single_instance(NameReply::Code(2)));
    assert!(!is_single_instance(NameReply::Code(3)));
    assert!(!is_single_instance(NameReply::Unreadable));
}

#[test]
fn a_change_is_read_and_a_deletion_is_told() {
    assert_eq!(
        on_file_change(FileChange::Renamed, Some("config.toml.tmp"), Some("config.toml")),
        WatchReaction::ReloadSoon(WatchTarget::Config)
    );
    assert_eq!(
        on_file_change(FileChange::Deleted, Some("style.css"), None),
        WatchReaction::Gone(WatchTarget::Style, "style.css was deleted".into())
    );
    assert_eq!(on_file_change(FileChange::Other, Some("style.css"), None), WatchReaction::Ignore);
    assert_eq!(on_file_change(FileChange::Changed, Some("a.txt"), None), WatchReaction::Ignore);
}

#[test]
fn mending_one_file_leaves_the_error_of_the_other() {
    let mut err = ActiveError::default();
    err.set(WatchTarget::Config, Some("toml bad".into()));
    err.set(WatchTarget::Style, Some("css bad".into()));
    assert_eq!(err.message(), Some("toml bad"));
    err.set(WatchTarget::Config, None);
    assert_eq!(err.message(), Some("css bad"));
    err.set(WatchTarget::Style, None);
    assert!(err.is_empty());
}

#[test]
fn a_file_is_read_once_it_stays_unchanged() {
    let mut timers = ReloadTimers::new();
    timers.changed(WatchTarget::Config, 10);
    timers.changed(WatchTarget::Config, 60);
    assert!(!timers.fire(WatchTarget::Config, 10 + DEBOUNCE_MS));
    assert!(!timers.fire(WatchTarget::Style, 10 + DEBOUNCE_MS));
    assert!(timers.fire(WatchTarget::Config, 60 + DEBOUNCE_MS));
    assert!(!timers.fire(WatchTarget::Config, 60 + DEBOUNCE_MS));
}

#[test]
fn bars_follow_the_monitors() {
    let monitors = vec![
        ConnectedMonitor { id: 1, width: 1920 },
        ConnectedMonitor { id: 2, width: 0 },
        ConnectedMonitor { id: 3, width: 2560 },
    ];
    let plan = plan_monitors(&monitors, &vec![1, 2, 9]);
    assert_eq!(plan.close, vec![1, 2]);
    assert_eq!(plan.open, vec![3]);
    assert!(plan.has_unready);
    let settled = plan_monitors(&vec![ConnectedMonitor { id: 1, width: 10 }], &vec![1]);
    assert!(settled.close.is_empty() && settled.open.is_empty() && !settled.has_unready);
}

#[test]
fn requests_during_a_match_lead_to_one_more() {
    let mut flags = ReconcileFlags::new();
    assert!(flags.request());
    assert!(!flags.request());
    assert!(!flags.request());
    assert!(flags.finished());
    assert!(!flags.finished());
    assert!(flags.request());
}

#[test]
fn the_font_lies_with_the_data_of_the_user() {
    let place = font_place(Some("/d"), Some("/h")).unwrap();
    assert_eq!(place.dir, "/d/fonts/niri-bar");
    assert_eq!(place.file, "/d/fonts/niri-bar/NerdFont-Regular.ttf");
    let place = font_place(None, Some("/h")).unwrap();
    assert_eq!(place.file, "/h/.local/share/fonts/niri-bar/NerdFont-Regular.ttf");
    assert_eq!(font_place(Some(""), None).unwrap().dir, "fonts/niri-bar");
    assert!(font_place(None, None).is_none());
}

#[test]
fn the_font_is_written_where_it_is_missing_or_differs() {
    assert!(font_is_due(None, 7));
    assert!(font_is_due(Some(6), 7));
    assert!(!font_is_due(Some(7), 7));
}
