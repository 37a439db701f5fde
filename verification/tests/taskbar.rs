use niri_bar::config::AppConfig;
use niri_bar::niri::drag::{finish_drag, ChildBounds, DragAction, GlobalDragState};
use niri_bar::niri::model::{WindowInfo, WindowLayout, WorkspaceInfo};
use niri_bar::niri::state::AppState;
use niri_bar::niri::taskbar::{
    active_workspace_per_output, button_size, filter_windows_for_output, look_classes,
    sort_windows_spatially, DragLook, TaskbarGeometry, TaskbarWidget,
};

fn window(id: u64, workspace: u64, column: usize) -> WindowInfo {
    WindowInfo {
        id,
        title: Some(format!("w{id}")),
        app_id: Some(format!("app{id}")),
        workspace_id: Some(workspace),
        is_focused: false,
        layout: Some(WindowLayout { pos_in_scrolling_layout: Some((column, 0)) }),
    }
}

fn workspace(id: u64, output: &str, is_active: bool, is_focused: bool) -> WorkspaceInfo {
    WorkspaceInfo { id, output: Some(output.into()), is_active, is_focused }
}

fn geometry() -> TaskbarGeometry {
    TaskbarGeometry {
        vertical: true,
        offset: (0, 0),
        children: vec![ChildBounds { pos: 0, len: 40 }, ChildBounds { pos: 40, len: 40 }],
        scale_factor: 1,
    }
}

fn two_outputs() -> AppState {
    AppState {
        windows: vec![window(1, 1, 1), window(2, 1, 0), window(3, 2, 0)],
        workspaces: vec![workspace(1, "A", true, true), workspace(2, "B", true, false)],
        ..AppState::new()
    }
}

#[test]
fn test_taskbar_spatial_sorting() {
    let mut windows = vec![
        WindowInfo {
            id: 1,
            title: Some("Col 2 Tile 0".to_string()),
            app_id: None,
            workspace_id: Some(1),
            is_focused: false,
            layout: Some(WindowLayout {
                pos_in_scrolling_layout: Some((2, 0)),
            }),
        },
        WindowInfo {
            id: 2,
            title: Some("Col 0 Tile 1".to_string()),
            app_id: None,
            workspace_id: Some(1),
            is_focused: false,
            layout: Some(WindowLayout {
                pos_in_scrolling_layout: Some((0, 1)),
            }),
        },
        WindowInfo {
            id: 3,
            title: Some("Col 0 Tile 0".to_string()),
            app_id: None,
            workspace_id: Some(1),
            is_focused: false,
            layout: Some(WindowLayout {
                pos_in_scrolling_layout: Some((0, 0)),
            }),
        },
        WindowInfo {
            id: 4,
            title: Some("Col 1 Tile 0".to_string()),
            app_id: None,
            workspace_id: Some(1),
            is_focused: false,
            layout: Some(WindowLayout {
                pos_in_scrolling_layout: Some((1, 0)),
            }),
        },
    ];

    sort_windows_spatially(&mut windows);

    assert_eq!(windows[0].id, 3); // (0, 0)
    assert_eq!(windows[1].id, 2); // (0, 1)
    assert_eq!(windows[2].id, 4); // (1, 0)
    assert_eq!(windows[3].id, 1); // (2, 0)
}

#[test]
fn test_taskbar_workspace_filtering() {
    let workspaces = vec![
        WorkspaceInfo {
            id: 1,
            output: Some("eDP-1".to_string()),
            is_active: true,
            is_focused: true,
        },
        WorkspaceInfo {
            id: 2,
            output: Some("eDP-1".to_string()),
            is_active: false,
            is_focused: false,
        },
        WorkspaceInfo {
            id: 3,
            output: Some("DP-1".to_string()),
            is_active: true,
            is_focused: false,
        },
    ];

    let windows = vec![
        WindowInfo {
            id: 10,
            title: Some("eDP-1 active ws".to_string()),
            app_id: None,
            workspace_id: Some(1),
            is_focused: true,
            layout: None,
        },
        WindowInfo {
            id: 20,
            title: Some("eDP-1 inactive ws".to_string()),
            app_id: None,
            workspace_id: Some(2),
            is_focused: false,
            layout: None,
        },
        WindowInfo {
            id: 30,
            title: Some("DP-1 active ws".to_string()),
            app_id: None,
            workspace_id: Some(3),
            is_focused: false,
            layout: None,
        },
    ];

    let current_output = Some("eDP-1".to_string());

    // Test with only_current_workspace = true (exercises production code)
    let only_current = filter_windows_for_output(&windows, &workspaces, &current_output, true);

    assert_eq!(only_current.len(), 1);
    assert_eq!(only_current[0].id, 10);

    // Test with only_current_workspace = false
    let all_on_output = filter_windows_for_output(&windows, &workspaces, &current_output, false);

    assert_eq!(all_on_output.len(), 2);
    assert_eq!(all_on_output[0].id, 10);
    assert_eq!(all_on_output[1].id, 20);
}

#[test]
fn test_taskbar_unresolved_output_shows_nothing() {
    let workspaces = vec![WorkspaceInfo {
        id: 1,
        output: Some("eDP-1".to_string()),
        is_active: true,
        is_focused: true,
    }];
    let windows = vec![WindowInfo {
        id: 10,
        title: Some("win".to_string()),
        app_id: None,
        workspace_id: Some(1),
        is_focused: true,
        layout: None,
    }];
    // Never leak other monitors' windows when output is unresolved.
    let filtered = filter_windows_for_output(&windows, &workspaces, &None, false);
    assert!(filtered.is_empty());
}

#[test]
fn the_focused_workspace_of_an_output_is_its_active_one() {
    let wss = vec![
        workspace(1, "A", false, false),
        workspace(2, "A", true, false),
        workspace(3, "A", false, true),
        workspace(4, "B", false, false),
    ];
    let active = active_workspace_per_output(&wss);
    assert_eq!(active.get("A"), Some(&3));
    assert_eq!(active.get("B"), Some(&4));
    assert_eq!(active.get("C"), None);
}

#[test]
fn windows_without_a_place_come_last_in_their_order() {
    let mut ws = vec![window(1, 1, 5), window(2, 1, 0), window(3, 1, 5)];
    ws[0].layout = None;
    ws[2].layout = None;
    sort_windows_spatially(&mut ws);
    let ids: Vec<u64> = ws.iter().map(|w| w.id).collect();
    assert_eq!(ids, vec![2, 1, 3]);
}

#[test]
fn buttons_are_made_updated_and_removed() {
    let mut st = two_outputs();
    let config = AppConfig::default().taskbar;
    let mut taskbar = TaskbarWidget::new();
    let mut dragged = None;
    let out = Some("A".to_string());
    let plan = taskbar.reconcile(&out, &st, &config, &mut dragged, &geometry());
    assert!(plan.visible && plan.removed.is_empty());
    let ids: Vec<u64> = plan.buttons.iter().map(|b| b.id).collect();
    assert_eq!(ids, vec![2, 1]);
    assert!(plan.buttons.iter().all(|b| b.is_new && b.look == DragLook::Plain));
    assert_eq!(plan.buttons[0].icon_key, "app2");
    assert_eq!(plan.buttons[0].title, "w2");

    st.window_closed(2);
    st.windows[0].is_focused = true;
    let plan = taskbar.reconcile(&out, &st, &config, &mut dragged, &geometry());
    assert_eq!(plan.removed, vec![2]);
    assert_eq!(plan.buttons.len(), 1);
    let b = &plan.buttons[0];
    assert!(!b.is_new && b.set_focus && b.is_focused && !b.set_icon && !b.set_tooltip && b.reorder);
}

#[test]
fn a_second_layout_changes_nothing() {
    let mut st = two_outputs();
    st.windows[0].is_focused = true;
    let config = AppConfig::default().taskbar;
    let mut taskbar = TaskbarWidget::new();
    let mut dragged = None;
    let out = Some("A".to_string());
    let first = taskbar.reconcile(&out, &st, &config, &mut dragged, &geometry());
    let second = taskbar.reconcile(&out, &st, &config, &mut dragged, &geometry());
    assert!(second.visible && second.removed.is_empty());
    assert_eq!(second.buttons.len(), first.buttons.len());
    for (a, b) in first.buttons.iter().zip(&second.buttons) {
        assert_eq!(a.id, b.id);
        assert!(a.is_new && !b.is_new && !b.set_focus && !b.set_tooltip && !b.set_icon);
    }
    let shown: Vec<(u64, bool)> = taskbar.widgets.iter().map(|w| (w.id, w.is_focused)).collect();
    assert_eq!(shown, vec![(2, false), (1, true)]);
}

#[test]
fn sorting_again_keeps_the_order() {
    let mut once = vec![window(1, 1, 1), window(2, 1, 0), window(3, 1, 1)];
    sort_windows_spatially(&mut once);
    let mut twice = once.clone();
    sort_windows_spatially(&mut twice);
    assert_eq!(once, twice);
}

#[test]
fn a_taskbar_that_is_switched_off_is_not_shown() {
    let st = two_outputs();
    let mut config = AppConfig::default().taskbar;
    config.enabled = false;
    let mut taskbar = TaskbarWidget::new();
    let mut dragged = None;
    let plan = taskbar.reconcile(&Some("A".into()), &st, &config, &mut dragged, &geometry());
    assert!(!plan.visible && plan.buttons.is_empty());
}

#[test]
fn a_window_that_is_dragged_here_is_previewed() {
    let st = two_outputs();
    let config = AppConfig::default().taskbar;
    let mut taskbar = TaskbarWidget::new();
    let mut dragged = Some(GlobalDragState {
        window_id: 3,
        source_output: Some("B".into()),
        source_index: 0,
        start_root_x: 0,
        start_root_y: 0,
        current_global_x: 0,
        current_global_y: 50 * 256,
        is_dragging: true,
        current_target_slot: 0,
        target_output: Some("A".into()),
        target_slot: 0,
        target_slot_valid: false,
        generation: 0,
    });
    let plan = taskbar.reconcile(&Some("A".into()), &st, &config, &mut dragged, &geometry());
    assert_eq!(plan.buttons.len(), 3);
    let ghost: Vec<u64> = plan.buttons.iter().filter(|b| b.look == DragLook::Preview).map(|b| b.id).collect();
    assert_eq!(ghost, vec![3]);
    assert!(dragged.as_ref().unwrap().target_slot_valid);
    let slot = dragged.as_ref().unwrap().target_slot;
    assert_eq!(plan.buttons[slot].id, 3);
    assert_eq!(
        finish_drag(&mut dragged, 3, true),
        Some(DragAction::MoveToMonitor { output: "A".into(), slot_1based: Some(slot + 1) })
    );
}

#[test]
fn looks_put_classes_on_and_off() {
    let plain = look_classes(DragLook::Plain, false);
    assert_eq!(plain.is_dragging, Some(false));
    assert_eq!(plain.opaque, Some(true));
    let away = look_classes(DragLook::Away, false);
    assert_eq!((away.is_dragging, away.drag_source_away, away.opaque), (Some(true), Some(true), Some(false)));
    let new = look_classes(DragLook::Plain, true);
    assert_eq!((new.is_dragging, new.cross_monitor_preview, new.opaque), (None, None, None));
    let ghost = look_classes(DragLook::Preview, true);
    assert_eq!((ghost.drag_placeholder, ghost.cross_monitor_preview), (Some(true), Some(true)));
}

#[test]
fn buttons_leave_room_around_the_icon() {
    assert_eq!((button_size(32), button_size(20), button_size(8)), (48, 36, 36));
}
