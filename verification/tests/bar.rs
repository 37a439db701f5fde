use niri_bar::bar::{
    bar_layout, place_modules, resolve_module_placement, unknown_module_message, BarWindow, ErrorBadge,
    ModulePlacement, ERROR_BADGE_CSS, ERROR_LABEL_COPIED_MARKUP, ERROR_LABEL_MARKUP,
};
use niri_bar::config::{AppConfig, BarPosition};
use niri_bar::style::check_braces;

#[test]
fn test_resolve_module_placement() {
    assert_eq!(resolve_module_placement("taskbar"), Some(ModulePlacement::Taskbar));
    assert_eq!(resolve_module_placement("tray"), Some(ModulePlacement::Tray));
    assert_eq!(resolve_module_placement("volume"), Some(ModulePlacement::Simple));
    assert_eq!(resolve_module_placement("spacer"), Some(ModulePlacement::Simple));
    assert_eq!(resolve_module_placement("volumne"), None);
    assert_eq!(resolve_module_placement(""), None);
}

#[test]
fn test_error_badge_show_and_clear() {
    let mut badge = ErrorBadge::new();

    // Initial state
    assert!(!badge.is_visible());
    assert!(badge.current_error.is_none());

    // Show error
    let msg = "CSS syntax error: unexpected token";
    badge.show_error(msg);
    let tooltip = format!("Click to copy error below:\n\n{msg}");

    assert!(badge.is_visible());
    assert_eq!(badge.label_markup(), ERROR_LABEL_MARKUP);
    assert_eq!(badge.tooltip_text().as_deref(), Some(tooltip.as_str()));
    assert_eq!(badge.current_error.as_deref(), Some(msg));

    // Clear error
    badge.clear_error();
    assert!(!badge.is_visible());
    assert!(badge.current_error.is_none());
    assert_eq!(badge.label_markup(), ERROR_LABEL_MARKUP);
}

#[test]
fn test_error_badge_markup_preserved_on_show_and_clear() {
    let mut badge = ErrorBadge::new();
    assert_eq!(badge.label_markup(), ERROR_LABEL_MARKUP);

    // Call show_error
    badge.show_error("test error message");
    assert!(badge.is_visible());
    assert_eq!(badge.label_markup(), ERROR_LABEL_MARKUP);
    assert_eq!(badge.current_error.as_deref(), Some("test error message"));

    // Call clear_error
    badge.clear_error();
    assert!(!badge.is_visible());
    assert_eq!(badge.label_markup(), ERROR_LABEL_MARKUP);
    assert!(badge.current_error.is_none());
}

#[test]
fn every_default_module_has_a_placement() {
    let cfg = AppConfig::default();
    for name in cfg.modules.start_modules().iter().chain(cfg.modules.end_modules().iter()) {
        assert!(resolve_module_placement(name).is_some(), "unresolvable module '{name}'");
    }
}

#[test]
fn unknown_modules_are_left_out_and_told() {
    let names: Vec<String> = ["clock", "clok", "tray"].iter().map(|s| s.to_string()).collect();
    let (shown, unknown) = place_modules(&names);
    assert_eq!(
        shown,
        vec![
            ("clock".to_string(), ModulePlacement::Simple),
            ("tray".to_string(), ModulePlacement::Tray)
        ]
    );
    assert_eq!(unknown, vec!["clok"]);
    assert_eq!(
        unknown_module_message("clok"),
        "Unknown module 'clok', skipping (check [modules] start/end)"
    );
}

#[test]
fn a_bar_is_held_at_three_edges() {
    let left = bar_layout(BarPosition::Left, 50);
    assert_eq!((left.left, left.right, left.top, left.bottom), (true, false, true, true));
    assert_eq!((left.width, left.height, left.class), (50, -1, "vertical"));
    let bottom = bar_layout(BarPosition::Bottom, 30);
    assert_eq!((bottom.left, bottom.right, bottom.top, bottom.bottom), (true, true, false, true));
    assert_eq!((bottom.width, bottom.height, bottom.class), (-1, 30, "horizontal"));
}

#[test]
fn a_copied_error_is_confirmed_for_a_while() {
    let mut badge = ErrorBadge::new();
    assert_eq!(badge.click(), None);
    assert_eq!(badge.label_markup(), ERROR_LABEL_MARKUP);
    badge.show_error("bad");
    assert_eq!(badge.click().as_deref(), Some("bad"));
    assert_eq!(badge.label_markup(), ERROR_LABEL_COPIED_MARKUP);
    assert_eq!(badge.current_error.as_deref(), Some("bad"));
    badge.settle();
    assert_eq!(badge.label_markup(), ERROR_LABEL_MARKUP);
}

#[test]
fn a_bar_without_output_asks_now_and_then() {
    let mut bar = BarWindow::new(None);
    assert!(bar.update(None, 1_000));
    assert!(!bar.update(None, 5_999));
    assert!(bar.update(None, 6_000));
    assert!(!bar.update(Some("eDP-1".into()), 60_000));
    assert_eq!(bar.detected_output.as_deref(), Some("eDP-1"));
    bar.show_error("bad");
    assert!(bar.error_badge.is_visible());
    bar.clear_error();
    assert!(!bar.error_badge.is_visible());
}

#[test]
fn the_sheet_of_the_badge_has_matching_braces() {
    assert_eq!(check_braces(ERROR_BADGE_CSS), Ok(()));
    assert!(ERROR_BADGE_CSS.contains("#bar-error-badge"));
}
