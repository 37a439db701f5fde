use niri_bar::config::BarPosition;
use niri_bar::names::NameMap;
use niri_bar::niri::drag::{
    bar_logical_origin, cancel_applies, cancel_drag, decide_drag_action, decide_hover_target, drag_cursor,
    find_output_at_point, finish_drag, map_overlay_to_niri, map_root_to_niri, motion, motion_redraws,
    passes_threshold, press, reorder_target, request_drag_cancel, store_drag_position,
    store_local_slot, store_target_slot, take_drag_cancel, ChildBounds, DragAction, GlobalDragState, Motion,
    UNITS_PER_PX,
};
use niri_bar::niri::model::{LogicalOutput, OutputInfo};

fn px(p: f64) -> i64 {
    (p * UNITS_PER_PX as f64) as i64
}

fn test_drag() -> GlobalDragState {
    GlobalDragState {
        window_id: 7,
        source_output: Some("eDP-1".into()),
        source_index: 1,
        start_root_x: 0,
        start_root_y: 0,
        current_global_x: 0,
        current_global_y: 0,
        is_dragging: true,
        current_target_slot: 1,
        target_output: None,
        target_slot: 1,
        target_slot_valid: false,
        generation: 1,
    }
}

fn output_at(x: i32, y: i32, width: u32, height: u32) -> OutputInfo {
    OutputInfo {
        name: None,
        make: None,
        model: None,
        physical_size: None,
        logical: Some(LogicalOutput { x, y, width, height, scale: None }),
    }
}

#[test]
fn test_decide_drag_action() {
    // Plain click focuses; overlay release without drag does nothing.
    let click = GlobalDragState {
        is_dragging: false,
        ..test_drag()
    };
    assert_eq!(decide_drag_action(&click, true), DragAction::Focus);
    assert_eq!(decide_drag_action(&click, false), DragAction::Nothing);

    // Cross-monitor move wins over local slot, with 1-based slot.
    let mut cross = test_drag();
    cross.target_output = Some("DP-1".into());
    cross.target_slot = 2;
    cross.target_slot_valid = true;
    assert_eq!(
        decide_drag_action(&cross, true),
        DragAction::MoveToMonitor {
            output: "DP-1".into(),
            slot_1based: Some(3),
        }
    );

    // Fast drop before reconcile: append (None) instead of stale slot.
    let mut fast = test_drag();
    fast.target_output = Some("DP-1".into());
    fast.target_slot = 0;
    fast.target_slot_valid = false;
    assert_eq!(
        decide_drag_action(&fast, true),
        DragAction::MoveToMonitor {
            output: "DP-1".into(),
            slot_1based: None,
        }
    );

    // Local reorder.
    let mut local = test_drag();
    local.current_target_slot = 0;
    assert_eq!(
        decide_drag_action(&local, true),
        DragAction::MoveToColumn { col_1based: 1 }
    );

    // Dragged but dropped home: nothing.
    assert_eq!(decide_drag_action(&test_drag(), true), DragAction::Nothing);
}

#[test]
fn test_reorder_target() {
    let bounds = [
        ChildBounds { pos: 0, len: 40 },
        ChildBounds { pos: 40, len: 40 },
        ChildBounds { pos: 80, len: 40 },
    ];
    // Inside each child.
    assert_eq!(reorder_target(&bounds, 10, 0), 0);
    assert_eq!(reorder_target(&bounds, 50, 0), 1);
    assert_eq!(reorder_target(&bounds, 100, 0), 2);
    // Before first / after last.
    assert_eq!(reorder_target(&bounds, -5, 1), 0);
    assert_eq!(reorder_target(&bounds, 200, 0), 2);
    // Boundary belongs to the next child (matches `< pos + len`).
    assert_eq!(reorder_target(&bounds, 40, 0), 1);
    // Empty and single-child containers stay put.
    assert_eq!(reorder_target(&[], 10, 0), 0);
    assert_eq!(reorder_target(&bounds[..1], 500, 0), 0);
}

#[test]
fn test_decide_hover_target() {
    let src: Option<String> = Some("eDP-1".to_string());

    // Hovering home monitor: not cross, no target.
    assert_eq!(decide_hover_target(Some("eDP-1".to_string()), &src), (false, None));

    // Hovering the other monitor: cross with target.
    assert_eq!(
        decide_hover_target(Some("DP-1".to_string()), &src),
        (true, Some("DP-1".to_string()))
    );

    // Bezel gap (no hover): never a target, cross or not.
    assert_eq!(decide_hover_target(None, &src), (false, None));

    // Unresolved source output: any hover counts as cross.
    assert_eq!(
        decide_hover_target(Some("DP-1".to_string()), &None),
        (true, Some("DP-1".to_string()))
    );
}

#[test]
fn test_bar_logical_origin() {
    let mut outputs = NameMap::new();
    outputs.insert(
        "DP-1".to_string(),
        OutputInfo {
            name: Some("DP-1".to_string()),
            make: None,
            model: None,
            physical_size: None,
            logical: Some(LogicalOutput {
                x: 1423,
                y: 0,
                width: 1920,
                height: 1080,
                scale: Some("1.0".to_string()),
            }),
        },
    );

    assert_eq!(
        bar_logical_origin("DP-1", &outputs, BarPosition::Left, 50),
        (1423, 0)
    );
    assert_eq!(
        bar_logical_origin("DP-1", &outputs, BarPosition::Top, 50),
        (1423, 0)
    );
    assert_eq!(
        bar_logical_origin("DP-1", &outputs, BarPosition::Right, 50),
        (3293, 0)
    );
    assert_eq!(
        bar_logical_origin("DP-1", &outputs, BarPosition::Bottom, 50),
        (1423, 1030)
    );
    assert_eq!(
        bar_logical_origin("nonexistent", &outputs, BarPosition::Left, 50),
        (0, 0)
    );
}

#[test]
fn test_find_output_at_point() {
    let mut outputs = NameMap::new();
    outputs.insert(
        "eDP-1".to_string(),
        OutputInfo {
            name: Some("eDP-1".to_string()),
            make: None,
            model: None,
            physical_size: None,
            logical: Some(LogicalOutput {
                x: 0,
                y: 0,
                width: 1422,
                height: 800,
                scale: Some("1.35".to_string()),
            }),
        },
    );
    outputs.insert(
        "DP-1".to_string(),
        OutputInfo {
            name: Some("DP-1".to_string()),
            make: None,
            model: None,
            physical_size: None,
            logical: Some(LogicalOutput {
                x: 1423,
                y: 0,
                width: 1920,
                height: 1080,
                scale: Some("1.0".to_string()),
            }),
        },
    );

    // Exact hits
    assert_eq!(find_output_at_point(px(500.0), px(300.0), &outputs), Some("eDP-1".to_string()));
    assert_eq!(find_output_at_point(px(1500.0), px(300.0), &outputs), Some("DP-1".to_string()));

    // 1px gap between monitors (1422.5 is between 1422 and 1423)
    let gap_hit = find_output_at_point(px(1422.5), px(300.0), &outputs);
    assert!(gap_hit.is_some(), "Points in bezel gap must resolve to nearest output");

    // Overshoot outside all monitors
    assert_eq!(find_output_at_point(px(-100.0), px(300.0), &outputs), Some("eDP-1".to_string()));
    assert_eq!(find_output_at_point(px(4000.0), px(300.0), &outputs), Some("DP-1".to_string()));

    // Empty outputs
    assert_eq!(find_output_at_point(px(100.0), px(100.0), &NameMap::new()), None);
}

#[test]
fn test_right_to_left_drag_hover_behavior() {
    let mut outputs = NameMap::new();
    outputs.insert(
        "eDP-1".to_string(),
        OutputInfo {
            name: Some("eDP-1".to_string()),
            make: Some("LG Display".to_string()),
            model: Some("0x05FE".to_string()),
            physical_size: Some((340, 190)),
            logical: Some(LogicalOutput {
                x: 0,
                y: 0,
                width: 1422,
                height: 800,
                scale: Some("1.35".to_string()),
            }),
        },
    );
    outputs.insert(
        "DP-1".to_string(),
        OutputInfo {
            name: Some("DP-1".to_string()),
            make: Some("Microstep".to_string()),
            model: Some("MSI MAG271C".to_string()),
            physical_size: Some((600, 340)),
            logical: Some(LogicalOutput {
                x: 1423,
                y: 0,
                width: 1920,
                height: 1080,
                scale: Some("1.0".to_string()),
            }),
        },
    );

    let right_src = Some("DP-1".to_string());

    // 1. Dragging on DP-1 (right monitor) and hovering over DP-1's bar:
    // Must stay on DP-1 (NOT jump to eDP-1).
    let ((gx_home, gy_home), hover_home) =
        map_root_to_niri((px(25.0), px(50.0)), &right_src, &outputs, BarPosition::Left, 50);
    assert_eq!(gx_home, px(1448.0));
    assert_eq!(gy_home, px(50.0));
    assert_eq!(hover_home, Some("DP-1".to_string()));
    let (is_cross, target) = decide_hover_target(hover_home, &right_src);
    assert!(!is_cross);
    assert_eq!(target, None);

    // 2. Dragging left from DP-1 into eDP-1:
    // Pointer moves left across monitor boundary (root_x = -423.0 on DP-1 bar = 1000.0 in Niri space).
    let ((gx_left, gy_left), hover_left) =
        map_root_to_niri((px(-423.0), px(50.0)), &right_src, &outputs, BarPosition::Left, 50);
    assert_eq!(gx_left, px(1000.0));
    assert_eq!(gy_left, px(50.0));
    assert_eq!(hover_left, Some("eDP-1".to_string()));
    let (is_cross_left, target_left) = decide_hover_target(hover_left, &right_src);
    assert!(is_cross_left);
    assert_eq!(target_left, Some("eDP-1".to_string()));

    // 3. Dragging from eDP-1 (left monitor) to DP-1 (right monitor):
    let left_src = Some("eDP-1".to_string());
    let ((gx_left_home, _), hover_left_home) =
        map_root_to_niri((px(25.0), px(50.0)), &left_src, &outputs, BarPosition::Left, 50);
    assert_eq!(gx_left_home, px(25.0));
    assert_eq!(hover_left_home, Some("eDP-1".to_string()));
    assert_eq!(decide_hover_target(hover_left_home, &left_src), (false, None));

    let ((gx_right, _), hover_right) = map_root_to_niri((px(1500.0), px(50.0)), &left_src, &outputs, BarPosition::Left, 50);
    assert_eq!(gx_right, px(1500.0));
    assert_eq!(hover_right, Some("DP-1".to_string()));
    assert_eq!(
        decide_hover_target(hover_right, &left_src),
        (true, Some("DP-1".to_string()))
    );
}

#[test]
fn a_press_starts_a_drag_unless_another_is_on() {
    let mut drag = None;
    let mut generation = 4;
    assert!(press(&mut drag, &mut generation, 7, Some("A".into()), 2, (px(10.0), px(20.0)), (px(1.0), px(2.0))));
    assert_eq!(generation, 5);
    let d = drag.clone().unwrap();
    assert_eq!((d.window_id, d.source_index, d.is_dragging, d.generation), (7, 2, false, 4));
    assert_eq!(motion(&mut drag, 7, (px(13.0), px(23.0)), 1), Motion::Nothing);
    assert_eq!(motion(&mut drag, 7, (px(17.0), px(20.0)), 1), Motion::Began);
    assert_eq!(motion(&mut drag, 7, (px(18.0), px(20.0)), 1), Motion::Continued);
    assert_eq!(motion(&mut drag, 8, (px(90.0), px(20.0)), 1), Motion::Nothing);
    assert!(!press(&mut drag, &mut generation, 8, None, 0, (0, 0), (0, 0)));
    assert_eq!(drag.unwrap().window_id, 7);
}

#[test]
fn the_threshold_grows_with_the_scale() {
    assert!(!passes_threshold((0, 0), (px(6.0), 0), 1));
    assert!(passes_threshold((0, 0), (px(6.0) + 1, 0), 1));
    assert!(!passes_threshold((0, 0), (px(12.0), 0), 2));
    assert!(passes_threshold((0, 0), (px(12.5), 0), 2));
    assert!(passes_threshold((0, 0), (px(6.5), 0), 0));
}

#[test]
fn a_release_ends_the_drag_of_its_window() {
    let mut drag = Some(test_drag());
    assert_eq!(finish_drag(&mut drag, 8, true), None);
    assert!(drag.is_some());
    drag.as_mut().unwrap().current_target_slot = 4;
    assert_eq!(finish_drag(&mut drag, 7, true), Some(DragAction::MoveToColumn { col_1based: 5 }));
    assert!(drag.is_none());
}

#[test]
fn a_drag_that_reaches_an_output_is_appended_there() {
    let mut drag = Some(test_drag());
    store_drag_position(&mut drag, 7, 5, 6, Some("DP-1".into()));
    store_target_slot(&mut drag, 7, 2);
    assert!(drag.as_ref().unwrap().target_slot_valid);
    store_drag_position(&mut drag, 7, 7, 8, Some("DP-2".into()));
    let d = drag.clone().unwrap();
    assert_eq!((d.current_global_x, d.current_global_y, d.target_slot_valid), (7, 8, false));
    assert_eq!(
        finish_drag(&mut drag, 7, false),
        Some(DragAction::MoveToMonitor { output: "DP-2".into(), slot_1based: None })
    );
}

#[test]
fn slots_are_stored_for_the_window_that_is_dragged() {
    let mut drag = Some(test_drag());
    store_local_slot(&mut drag, 8, 5);
    assert_eq!(drag.as_ref().unwrap().current_target_slot, 1);
    store_local_slot(&mut drag, 7, 5);
    assert_eq!(drag.as_ref().unwrap().current_target_slot, 5);
    assert_eq!(drag.as_ref().unwrap().target_slot, 5);
}

#[test]
fn a_cancelled_drag_is_cleaned_up_once() {
    let mut pending = None;
    let mut drag = Some(test_drag());
    assert!(!cancel_drag(&mut drag, 8));
    assert!(cancel_drag(&mut drag, 7));
    assert!(drag.is_none());
    request_drag_cancel(&mut pending, 7);
    let taken = take_drag_cancel(&mut pending);
    assert_eq!(taken, Some(7));
    assert_eq!(take_drag_cancel(&mut pending), None);
    assert!(cancel_applies(taken, &None));
    assert!(cancel_applies(taken, &Some(test_drag())));
    let newer = GlobalDragState { window_id: 9, ..test_drag() };
    assert!(!cancel_applies(taken, &Some(newer)));
    assert!(!cancel_applies(None, &None));
}

#[test]
fn bars_are_redrawn_when_the_target_changes() {
    let a = Some("A".to_string());
    assert!(motion_redraws(true, &a, &a));
    assert!(motion_redraws(false, &a, &None));
    assert!(!motion_redraws(false, &None, &None));
}

#[test]
fn a_point_on_an_overlay_lies_on_its_output() {
    let mut outputs = NameMap::new();
    outputs.insert("DP-1".to_string(), output_at(1423, 10, 1920, 1080));
    let hover = Some("DP-1".to_string());
    assert_eq!(map_overlay_to_niri((px(2.5), px(3.0)), &hover, &outputs), (px(1425.5), px(13.0)));
    assert_eq!(map_overlay_to_niri((px(2.5), px(3.0)), &None, &outputs), (px(2.5), px(3.0)));
    let gone = Some("DP-9".to_string());
    assert_eq!(map_overlay_to_niri((px(2.5), px(3.0)), &gone, &outputs), (px(2.5), px(3.0)));
}

#[test]
fn an_output_at_the_end_of_its_numbers_has_a_corner() {
    let mut outputs = NameMap::new();
    outputs.insert("far".to_string(), output_at(i32::MAX, 0, u32::MAX, 1));
    assert_eq!(bar_logical_origin("far", &outputs, BarPosition::Left, 50), (i32::MAX as i64, 0));
    assert_eq!(
        bar_logical_origin("far", &outputs, BarPosition::Right, 0),
        (i32::MAX as i64 + u32::MAX as i64, 0)
    );
}

#[test]
fn of_two_outputs_at_a_point_the_first_name_is_taken() {
    let mut outputs = NameMap::new();
    outputs.insert("B".to_string(), output_at(0, 0, 100, 100));
    outputs.insert("A".to_string(), output_at(0, 0, 100, 100));
    assert_eq!(find_output_at_point(px(5.0), px(5.0), &outputs), Some("A".to_string()));
    assert_eq!(find_output_at_point(px(500.0), px(5.0), &outputs), Some("A".to_string()));
}

#[test]
fn the_cursor_of_a_drag_has_a_default_size() {
    assert_eq!(drag_cursor(0), (20, 10));
    assert_eq!(drag_cursor(33), (33, 16));
}

#[test]
fn a_gap_between_children_keeps_the_slot() {
    let bounds = [ChildBounds { pos: 0, len: 10 }, ChildBounds { pos: 20, len: 10 }];
    assert_eq!(reorder_target(&bounds, 15, 1), 1);
    assert_eq!(reorder_target(&bounds, 15, 0), 0);
}

#[test]
fn an_output_is_found_for_every_point() {
    let mut one = NameMap::new();
    one.insert("A".to_string(), output_at(0, 0, 100, 100));
    one.insert("B".to_string(), output_at(100, 0, 100, 100));
    let mut other = NameMap::new();
    other.insert("B".to_string(), output_at(100, 0, 100, 100));
    other.insert("A".to_string(), output_at(0, 0, 100, 100));
    for (x, y) in [(i64::MIN, i64::MIN), (i64::MIN, i64::MAX), (i64::MAX, i64::MIN), (i64::MAX, i64::MAX), (0, 0)] {
        let nearest = if x > 0 { "B" } else { "A" };
        assert_eq!(find_output_at_point(x, y, &one).as_deref(), Some(nearest));
        // The order in which outputs came does not matter.
        assert_eq!(find_output_at_point(x, y, &other).as_deref(), Some(nearest));
    }
}

#[test]
fn a_pointer_may_move_from_one_end_to_the_other() {
    assert!(passes_threshold((i64::MIN, i64::MIN), (i64::MAX, i64::MAX), i32::MAX));
    assert!(!passes_threshold((i64::MAX, i64::MIN), (i64::MAX, i64::MIN), 1));
}
