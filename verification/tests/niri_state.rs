use niri_bar::names::NameMap;
use niri_bar::niri::drag::GlobalDragState;
use niri_bar::niri::model::{Event, LogicalOutput, OutputInfo, WindowInfo, WindowLayout, WorkspaceInfo};
use niri_bar::niri::outputs::{match_output_for_monitor, names_alike, MonitorFingerprint};
use niri_bar::niri::state::{find_window, refetch_for, AppState, Refetched};

fn test_output(logical: Option<LogicalOutput>, make: &str, model: &str) -> OutputInfo {
    OutputInfo {
        name: None,
        make: if make.is_empty() { None } else { Some(make.into()) },
        model: if model.is_empty() { None } else { Some(model.into()) },
        physical_size: None,
        logical,
    }
}

fn logical_output(x: i32, y: i32, scale: f64) -> LogicalOutput {
    LogicalOutput { x, y, width: 1920, height: 1080, scale: Some(format!("{scale}")) }
}

fn find_output(fp: &MonitorFingerprint, outputs: &NameMap<OutputInfo>, single: bool) -> Option<String> {
    let mut scaled = NameMap::new();
    for i in 0..outputs.len() {
        if let Some(l) = &outputs.value_at(i).logical {
            let scale: f64 = l.scale.as_deref().map_or(1.0, |s| s.parse().unwrap());
            let at = ((f64::from(l.x) * scale).round() as i32, (f64::from(l.y) * scale).round() as i32);
            scaled.insert(outputs.name_at(i).clone(), at);
        }
    }
    match_output_for_monitor(fp, outputs, &scaled, single)
}

fn window(id: u64, workspace: Option<u64>, focused: bool) -> WindowInfo {
    WindowInfo {
        id,
        title: None,
        app_id: None,
        workspace_id: workspace,
        is_focused: focused,
        layout: None,
    }
}

fn workspace(id: u64, output: &str, is_active: bool, is_focused: bool) -> WorkspaceInfo {
    WorkspaceInfo { id, output: Some(output.into()), is_active, is_focused }
}

fn nothing() -> Refetched {
    Refetched { outputs: None, workspaces: None }
}

fn drag_of(window_id: u64) -> GlobalDragState {
    GlobalDragState {
        window_id,
        source_output: None,
        source_index: 0,
        start_root_x: 0,
        start_root_y: 0,
        current_global_x: 0,
        current_global_y: 0,
        is_dragging: true,
        current_target_slot: 0,
        target_output: None,
        target_slot: 0,
        target_slot_valid: false,
        generation: 0,
    }
}

#[test]
fn test_app_state_window_lifecycle_events() {
    let mut state = AppState {
        workspaces: vec![
            WorkspaceInfo {
                id: 1,
                output: Some("eDP-1".to_string()),
                is_active: true,
                is_focused: true,
            },
            WorkspaceInfo {
                id: 2,
                output: Some("DP-1".to_string()),
                is_active: true,
                is_focused: false,
            },
        ],
        ..AppState::new()
    };

    // 2. Window opened
    let win1 = WindowInfo {
        id: 100,
        title: Some("Firefox".to_string()),
        app_id: Some("firefox".to_string()),
        workspace_id: Some(1),
        is_focused: true,
        layout: Some(WindowLayout {
            pos_in_scrolling_layout: Some((0, 0)),
        }),
    };
    state.window_opened_or_changed(win1);
    assert_eq!(state.windows.len(), 1);
    assert!(state.windows[0].is_focused);

    // 3. Second window opened and focused
    let win2 = WindowInfo {
        id: 200,
        title: Some("Alacritty".to_string()),
        app_id: Some("Alacritty".to_string()),
        workspace_id: Some(1),
        is_focused: true,
        layout: Some(WindowLayout {
            pos_in_scrolling_layout: Some((1, 0)),
        }),
    };
    state.window_opened_or_changed(win2);
    assert_eq!(state.windows.len(), 2);
    assert!(!state.windows[0].is_focused);
    assert!(state.windows[1].is_focused);

    // 4. Window focus changed back to win1
    state.window_focus_changed(Some(100));
    assert!(state.windows[0].is_focused);
    assert!(!state.windows[1].is_focused);

    // 5. Window closed
    state.window_closed(100);
    assert_eq!(state.windows.len(), 1);
    assert_eq!(state.windows[0].id, 200);
}

#[test]
fn test_app_state_workspace_activation() {
    let mut state = AppState {
        workspaces: vec![
            WorkspaceInfo {
                id: 1,
                output: Some("eDP-1".to_string()),
                is_active: true,
                is_focused: true,
            },
            WorkspaceInfo {
                id: 2,
                output: Some("eDP-1".to_string()),
                is_active: false,
                is_focused: false,
            },
        ],
        ..AppState::new()
    };

    // Activate workspace 2
    state.workspace_activated(2, true);

    assert!(!state.workspaces[0].is_active);
    assert!(!state.workspaces[0].is_focused);
    assert!(state.workspaces[1].is_active);
    assert!(state.workspaces[1].is_focused);
}

#[test]
fn test_match_output_logical_geometry() {
    let mut outputs = NameMap::new();
    outputs.insert(
        "DP-1".into(),
        test_output(Some(logical_output(1920, 0, 1.0)), "Dell", "U2720Q"),
    );
    let fp = MonitorFingerprint {
        x: 1925,
        y: 5,
        make: None,
        model: None,
        w_mm: 0,
        h_mm: 0,
    };
    assert_eq!(find_output(&fp, &outputs, false), Some("DP-1".to_string()));
}

#[test]
fn test_match_output_scaled_geometry() {
    // Niri logical (0,0) at scale 2.0 also matches physical (0,0) origin.
    let mut outputs = NameMap::new();
    outputs.insert("eDP-1".into(), test_output(Some(logical_output(0, 0, 2.0)), "", ""));
    let fp = MonitorFingerprint {
        x: 2,
        y: -3,
        make: None,
        model: None,
        w_mm: 0,
        h_mm: 0,
    };
    assert_eq!(
        find_output(&fp, &outputs, false),
        Some("eDP-1".to_string())
    );
}

#[test]
fn test_match_output_physical_and_model_fallbacks() {
    let mut outputs = NameMap::new();
    let mut out = test_output(None, "Dell", "U2720Q");
    out.physical_size = Some((600, 340));
    outputs.insert("DP-1".into(), out);

    // Far from any logical origin: falls through to physical-size match.
    let fp_phys = MonitorFingerprint {
        x: 9999,
        y: 9999,
        make: Some("Other".into()),
        model: Some("Other".into()),
        w_mm: 605,
        h_mm: 335,
    };
    assert_eq!(
        find_output(&fp_phys, &outputs, false),
        Some("DP-1".to_string())
    );

    // Wrong physical size: falls through to make+model fuzzy match.
    let fp_mm = MonitorFingerprint {
        x: 9999,
        y: 9999,
        make: Some("DELL".into()),
        model: Some("dell u2720q".into()),
        w_mm: 100,
        h_mm: 100,
    };
    assert_eq!(
        find_output(&fp_mm, &outputs, false),
        Some("DP-1".to_string())
    );
}

#[test]
fn test_match_output_single_fallback_gated() {
    let mut outputs = NameMap::new();
    outputs.insert("DP-1".into(), test_output(None, "", ""));
    let fp = MonitorFingerprint {
        x: 9999,
        y: 9999,
        make: None,
        model: None,
        w_mm: 0,
        h_mm: 0,
    };
    assert_eq!(find_output(&fp, &outputs, true), Some("DP-1".to_string()));
    assert_eq!(find_output(&fp, &outputs, false), None);
}

#[test]
fn test_match_output_overlapping_disambiguated() {
    // Mirrored layout: both outputs at (0,0). Geometry alone ties, so
    // physical size must decide — deterministically, every call.
    let mut outputs = NameMap::new();
    let mut laptop = test_output(Some(logical_output(0, 0, 1.35)), "LG Display", "0x05FE");
    laptop.physical_size = Some((340, 190));
    outputs.insert("eDP-1".into(), laptop);
    let mut external = test_output(Some(logical_output(0, 0, 1.0)), "Microstep", "MSI MAG271C");
    external.physical_size = Some((600, 340));
    outputs.insert("DP-1".into(), external);

    let fp_external = MonitorFingerprint {
        x: 5,
        y: 5,
        make: Some("Microstep".into()),
        model: Some("MSI MAG271C".into()),
        w_mm: 600,
        h_mm: 340,
    };
    for _ in 0..10 {
        assert_eq!(
            find_output(&fp_external, &outputs, false),
            Some("DP-1".to_string())
        );
    }

    let fp_laptop = MonitorFingerprint {
        x: 5,
        y: 5,
        make: Some("LG Display".into()),
        model: Some("0x05FE".into()),
        w_mm: 340,
        h_mm: 190,
    };
    for _ in 0..10 {
        assert_eq!(
            find_output(&fp_laptop, &outputs, false),
            Some("eDP-1".to_string())
        );
    }
}

#[test]
fn test_match_output_identical_twins_deterministic() {
    // Truly indistinguishable outputs (same geometry, size, make, model):
    // sorted-first, stable across calls — never HashMap-order flap.
    let mut outputs = NameMap::new();
    for name in ["DP-2", "DP-1"] {
        let mut out = test_output(Some(logical_output(0, 0, 1.0)), "Same", "Same");
        out.physical_size = Some((600, 340));
        outputs.insert(name.into(), out);
    }
    let fp = MonitorFingerprint {
        x: 5,
        y: 5,
        make: Some("Same".into()),
        model: Some("Same".into()),
        w_mm: 600,
        h_mm: 340,
    };
    for _ in 0..10 {
        assert_eq!(find_output(&fp, &outputs, false), Some("DP-1".to_string()));
    }
}

#[test]
fn the_scaled_position_matches_too() {
    let mut outputs = NameMap::new();
    outputs.insert("DP-1".into(), test_output(Some(logical_output(1000, 500, 1.5)), "", ""));
    let fp = MonitorFingerprint { x: 1500, y: 750, make: None, model: None, w_mm: 0, h_mm: 0 };
    assert_eq!(find_output(&fp, &outputs, false), Some("DP-1".to_string()));
    let off = MonitorFingerprint { x: 1531, y: 750, make: None, model: None, w_mm: 0, h_mm: 0 };
    assert_eq!(find_output(&off, &outputs, false), None);
}

#[test]
fn the_model_alone_can_match() {
    let mut outputs = NameMap::new();
    outputs.insert("DP-1".into(), test_output(None, "Dell", "U2720Q"));
    outputs.insert("DP-2".into(), test_output(None, "Dell", "P2419H"));
    let fp = MonitorFingerprint {
        x: 0,
        y: 0,
        make: Some("Acme".into()),
        model: Some("p2419h rev b".into()),
        w_mm: 0,
        h_mm: 0,
    };
    assert_eq!(find_output(&fp, &outputs, false), Some("DP-2".to_string()));
}

#[test]
fn names_are_alike_where_one_holds_the_other() {
    assert!(names_alike("dell u2720q", "u2720q"));
    assert!(names_alike("dell", "dell inc."));
    assert!(!names_alike("dell", ""));
    assert!(!names_alike("dell", "acme"));
}

#[test]
fn activating_a_workspace_leaves_other_outputs_active() {
    let mut state = AppState {
        workspaces: vec![workspace(1, "A", true, true), workspace(2, "A", false, false), workspace(3, "B", true, false)],
        ..AppState::new()
    };
    state.workspace_activated(2, true);
    let flags: Vec<(bool, bool)> = state.workspaces.iter().map(|w| (w.is_active, w.is_focused)).collect();
    assert_eq!(flags, vec![(false, false), (true, true), (true, false)]);
    state.workspace_activated(3, false);
    let flags: Vec<(bool, bool)> = state.workspaces.iter().map(|w| (w.is_active, w.is_focused)).collect();
    assert_eq!(flags, vec![(false, false), (true, true), (true, false)]);
}

#[test]
fn the_focus_of_a_window_goes_to_its_workspace() {
    let mut state = AppState {
        windows: vec![window(10, Some(1), true), window(20, Some(2), false)],
        workspaces: vec![workspace(1, "A", true, true), workspace(2, "B", false, false)],
        ..AppState::new()
    };
    state.window_focus_changed(Some(20));
    assert!(!state.windows[0].is_focused && state.windows[1].is_focused);
    assert!(!state.workspaces[0].is_focused && state.workspaces[0].is_active);
    assert!(state.workspaces[1].is_focused && state.workspaces[1].is_active);
    state.window_focus_changed(None);
    assert!(state.windows.iter().all(|w| !w.is_focused));
    assert!(state.workspaces[1].is_focused);
}

#[test]
fn a_window_that_changed_is_replaced() {
    let mut state = AppState { windows: vec![window(10, Some(1), true)], ..AppState::new() };
    let mut changed = window(10, Some(2), false);
    changed.title = Some("new".into());
    state.window_opened_or_changed(changed);
    assert_eq!(state.windows.len(), 1);
    assert_eq!(state.windows[0].title.as_deref(), Some("new"));
    assert_eq!(find_window(&state.windows, 10), Some(0));
    assert_eq!(find_window(&state.windows, 11), None);
}

#[test]
fn layouts_are_stored_for_known_windows() {
    let mut state = AppState { windows: vec![window(10, None, false)], ..AppState::new() };
    let layout = WindowLayout { pos_in_scrolling_layout: Some((3, 1)) };
    state.window_layouts_changed(&vec![(11, layout), (10, layout)]);
    assert_eq!(state.windows[0].layout, Some(layout));
}

#[test]
fn a_closed_window_ends_its_drag() {
    let mut state = AppState { windows: vec![window(10, None, false), window(11, None, false)], ..AppState::new() };
    let mut dragged = Some(drag_of(10));
    let r = state.apply_event(Event::WindowClosed { id: 11 }, nothing(), &mut dragged);
    assert!(r.redraw && r.cancelled_drag.is_none() && dragged.is_some());
    let r = state.apply_event(Event::WindowClosed { id: 10 }, nothing(), &mut dragged);
    assert_eq!(r.cancelled_drag, Some(10));
    assert!(dragged.is_none());
    assert!(state.windows.is_empty());
    let r = state.apply_event(Event::Other, nothing(), &mut dragged);
    assert!(!r.redraw);
}

#[test]
fn outputs_that_are_not_told_are_fetched() {
    let mut state = AppState::new();
    let mut dragged = None;
    assert_eq!(refetch_for(&Event::OutputsChanged { outputs: None }), (true, true));
    assert_eq!(refetch_for(&Event::OutputsChanged { outputs: Some(NameMap::new()) }), (true, true));
    assert_eq!(refetch_for(&Event::Other), (false, false));
    let mut told = NameMap::new();
    told.insert("A".to_string(), test_output(None, "", ""));
    assert_eq!(refetch_for(&Event::OutputsChanged { outputs: Some(told.clone()) }), (false, true));
    let mut other = NameMap::new();
    other.insert("B".to_string(), test_output(None, "", ""));
    let fetched = Refetched { outputs: Some(other), workspaces: Some(vec![workspace(1, "B", true, true)]) };
    state.apply_event(Event::OutputsChanged { outputs: None }, fetched, &mut dragged);
    assert!(state.outputs.contains_key("B"));
    assert_eq!(state.workspaces.len(), 1);
    state.apply_event(Event::OutputsChanged { outputs: Some(told) }, nothing(), &mut dragged);
    assert!(state.outputs.contains_key("A") && !state.outputs.contains_key("B"));
    assert_eq!(state.workspaces.len(), 1);
}

#[test]
fn summaries_do_not_tell_titles() {
    let mut told = window(7, Some(1), true);
    told.title = Some("letter to a friend".into());
    let mut other = told.clone();
    other.title = None;
    let summary = Event::WindowOpenedOrChanged { window: told }.privacy_summary();
    assert_eq!(summary, Event::WindowOpenedOrChanged { window: other }.privacy_summary());
    assert!(!summary.contains("letter"));
}
