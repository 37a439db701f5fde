//! Dragging a window's button along the bar and across outputs.
use vstd::prelude::*;

use crate::config::BarPosition;
use crate::names;
use crate::names::NameMap;
use crate::niri::model::{LogicalOutput, OutputInfo};
use crate::niri::outputs;
use crate::text;

verus! {

/// Pointer positions are counted in 256ths of a pixel, the unit in which the
/// display protocol reports them.
pub const UNITS_PER_PX: i64 = 256;

/// How far the pointer has to move, in logical pixels, before a press is a drag.
pub const DRAG_THRESHOLD_LOGICAL_PX: i64 = 6;

/// The furthest position on a surface, in either direction, to which the place of the
/// surface can be added.
pub const MAX_POINTER: i64 = 0x7fff_fe7f_ffff_ffff;

/// A drag, from the press of the button to its release.
#[derive(Clone, Debug)]
pub struct GlobalDragState {
    pub window_id: u64,
    pub source_output: Option<String>,
    pub source_index: usize,
    pub start_root_x: i64,
    pub start_root_y: i64,
    pub current_global_x: i64,
    pub current_global_y: i64,
    pub is_dragging: bool,
    /// The slot on the source bar under the pointer.
    pub current_target_slot: usize,
    /// The other output under the pointer.
    pub target_output: Option<String>,
    /// The slot on that output's bar.
    pub target_slot: usize,
    /// True once `target_slot` was computed for the current `target_output`.
    pub target_slot_valid: bool,
    /// Tells drags that follow each other apart.
    pub generation: u64,
}

/// What is asked of the compositor when the button is released.
#[derive(Debug, Clone, PartialEq, Eq)]
pub enum DragAction {
    Nothing,
    MoveToMonitor {
        output: String,
        /// Counted from one; `None` to append.
        slot_1based: Option<usize>,
    },
    MoveToColumn { col_1based: usize },
    Focus,
}

/// The extent of one child along the bar.
#[derive(Debug, Clone, Copy, PartialEq, Eq)]
pub struct ChildBounds {
    pub pos: i32,
    pub len: i32,
}

/// What a movement of the pointer means for the drag of a window.
#[derive(Debug, Clone, Copy, PartialEq, Eq, Structural)]
pub enum Motion {
    /// There is no drag of that window, or the pointer did not move far enough.
    Nothing,
    /// The press has just become a drag.
    Began,
    /// The drag goes on.
    Continued,
}

/// The release of `drag` asks for `action`.
pub open spec fn action_of(drag: GlobalDragState, click_to_focus: bool) -> DragAction {
    if !drag.is_dragging {
        if click_to_focus {
            DragAction::Focus
        } else {
            DragAction::Nothing
        }
    } else {
        match drag.target_output {
            Some(out) => DragAction::MoveToMonitor {
                output: out,
                slot_1based: if drag.target_slot_valid {
                    Some((drag.target_slot + 1) as usize)
                } else {
                    None
                },
            },
            None => if drag.current_target_slot != drag.source_index {
                DragAction::MoveToColumn { col_1based: (drag.current_target_slot + 1) as usize }
            } else {
                DragAction::Nothing
            },
        }
    }
}

/// The slots of a drag can be counted from one.
pub open spec fn slots_count(drag: GlobalDragState) -> bool {
    drag.target_slot < usize::MAX && drag.current_target_slot < usize::MAX
}

/// A copy of a drag.
pub fn copy_drag(drag: &Option<GlobalDragState>) -> (r: Option<GlobalDragState>)
    ensures
        r == *drag,
{
    match drag {
        Some(d) => Some(
            GlobalDragState {
                window_id: d.window_id,
                source_output: d.source_output.clone(),
                source_index: d.source_index,
                start_root_x: d.start_root_x,
                start_root_y: d.start_root_y,
                current_global_x: d.current_global_x,
                current_global_y: d.current_global_y,
                is_dragging: d.is_dragging,
                current_target_slot: d.current_target_slot,
                target_output: d.target_output.clone(),
                target_slot: d.target_slot,
                target_slot_valid: d.target_slot_valid,
                generation: d.generation,
            },
        ),
        None => None,
    }
}

/// Decides what the release of a drag asks for. A window on another output comes
/// first; niri counts slots from one.
pub fn decide_drag_action(drag: &GlobalDragState, click_to_focus: bool) -> (r: DragAction)
    requires
        slots_count(*drag),
    ensures
        r == action_of(*drag, click_to_focus),
{
    if !drag.is_dragging {
        return if click_to_focus {
            DragAction::Focus
        } else {
            DragAction::Nothing
        };
    }
    match &drag.target_output {
        Some(out) => {
            let slot: Option<usize> = if drag.target_slot_valid {
                Some(drag.target_slot + 1)
            } else {
                None
            };
            DragAction::MoveToMonitor { output: out.clone(), slot_1based: slot }
        },
        None => {
            if drag.current_target_slot != drag.source_index {
                DragAction::MoveToColumn { col_1based: drag.current_target_slot + 1 }
            } else {
                DragAction::Nothing
            }
        },
    }
}

/// `drag` is a drag of the window `window_id`.
pub open spec fn is_of(drag: Option<GlobalDragState>, window_id: u64) -> bool {
    drag matches Some(d) && d.window_id == window_id
}

/// Ends the drag of the window `window_id` and gives the action that its release
/// asks for. A drag of another window stays.
pub fn finish_drag(drag: &mut Option<GlobalDragState>, window_id: u64, click_to_focus: bool) -> (r:
    Option<DragAction>)
    requires
        is_of(*old(drag), window_id) ==> slots_count((*old(drag))->0),
    ensures
        is_of(*old(drag), window_id) ==> *final(drag) is None && r == Some(
            action_of((*old(drag))->0, click_to_focus),
        ),
        !is_of(*old(drag), window_id) ==> *final(drag) == *old(drag) && r is None,
{
    let ours: bool = match &*drag {
        Some(d) => d.window_id == window_id,
        None => false,
    };
    if !ours {
        return None;
    }
    match drag.take() {
        Some(d) => Some(decide_drag_action(&d, click_to_focus)),
        None => None,
    }
}

/// Drops the drag of the window `window_id`, and says whether there was one.
pub fn cancel_drag(drag: &mut Option<GlobalDragState>, window_id: u64) -> (r: bool)
    ensures
        r == is_of(*old(drag), window_id),
        r ==> *final(drag) is None,
        !r ==> *final(drag) == *old(drag),
{
    let ours: bool = match &*drag {
        Some(d) => d.window_id == window_id,
        None => false,
    };
    if ours {
        *drag = None;
    }
    ours
}

/// Notes that the drag of a closed window has to be cleaned up.
pub fn request_drag_cancel(pending: &mut Option<u64>, window_id: u64)
    ensures
        *final(pending) == Some(window_id),
{
    *pending = Some(window_id);
}

/// Takes the pending cleanup.
pub fn take_drag_cancel(pending: &mut Option<u64>) -> (r: Option<u64>)
    ensures
        r == *old(pending),
        *final(pending) is None,
{
    let r: Option<u64> = *pending;
    *pending = None;
    r
}

/// A pending cleanup for a closed window applies where there is no drag, or a drag
/// of that very window.
pub fn cancel_applies(pending: Option<u64>, drag: &Option<GlobalDragState>) -> (r: bool)
    ensures
        r == (pending matches Some(id) && (*drag is None || is_of(*drag, id))),
{
    match (pending, drag) {
        (Some(id), Some(d)) => d.window_id == id,
        (Some(_), None) => true,
        (None, _) => false,
    }
}

/// A press that must not start a drag: another window is being dragged.
pub open spec fn is_taken(drag: Option<GlobalDragState>, window_id: u64) -> bool {
    drag matches Some(d) && d.is_dragging && d.window_id != window_id
}

/// The press of a window's button. It starts what may become a drag, unless
/// another window is being dragged.
pub fn press(
    drag: &mut Option<GlobalDragState>,
    generation: &mut u64,
    window_id: u64,
    source_output: Option<String>,
    index: usize,
    root: (i64, i64),
    global: (i64, i64),
) -> (r: bool)
    ensures
        r == !is_taken(*old(drag), window_id),
        !r ==> *final(drag) == *old(drag) && *final(generation) == *old(generation),
        r ==> *final(drag) == Some(
            GlobalDragState {
                window_id,
                source_output,
                source_index: index,
                start_root_x: root.0,
                start_root_y: root.1,
                current_global_x: global.0,
                current_global_y: global.1,
                is_dragging: false,
                current_target_slot: index,
                target_output: None,
                target_slot: index,
                target_slot_valid: false,
                generation: *old(generation),
            },
        ) && *final(generation) == (if *old(generation) == u64::MAX {
            0
        } else {
            *old(generation) + 1
        }),
{
    let taken: bool = match &*drag {
        Some(d) => d.is_dragging && d.window_id != window_id,
        None => false,
    };
    if taken {
        return false;
    }
    let mine: u64 = *generation;
    *generation = if mine == u64::MAX {
        0
    } else {
        mine + 1
    };
    *drag = Some(
        GlobalDragState {
            window_id,
            source_output,
            source_index: index,
            start_root_x: root.0,
            start_root_y: root.1,
            current_global_x: global.0,
            current_global_y: global.1,
            is_dragging: false,
            current_target_slot: index,
            target_output: None,
            target_slot: index,
            target_slot_valid: false,
            generation: mine,
        },
    );
    true
}

/// `p` is a position on a surface to which the place of the surface can be added.
pub open spec fn on_screen(p: (i64, i64)) -> bool {
    -MAX_POINTER <= p.0 <= MAX_POINTER && -MAX_POINTER <= p.1 <= MAX_POINTER
}

/// The pointer moved from the press by more than the threshold, which grows with
/// the scale factor of the monitor.
pub open spec fn far_enough(start: (i64, i64), now: (i64, i64), scale_factor: i32) -> bool {
    let dx = now.0 - start.0;
    let dy = now.1 - start.1;
    let t = DRAG_THRESHOLD_LOGICAL_PX * UNITS_PER_PX * (if scale_factor < 1 {
        1
    } else {
        scale_factor as int
    });
    dx * dx + dy * dy > t * t
}

fn square(d: u64) -> (r: u128)
    ensures
        r == d * d,
{
    assert(0 <= d * d <= u64::MAX * u64::MAX) by (nonlinear_arith)
        requires
            0 <= d <= u64::MAX,
    ;
    (d as u128) * (d as u128)
}

/// The square of a number that is larger by its size than another.
proof fn lemma_square_grows(d: int, t: int)
    requires
        0 <= t,
        d > t || -d > t,
    ensures
        d * d > t * t,
{
    assert(d * d > t * t) by (nonlinear_arith)
        requires
            0 <= t,
            d > t || -d > t,
    ;
}

fn size_of(d: i128) -> (r: u64)
    requires
        -u64::MAX <= d <= u64::MAX,
    ensures
        r == (if d < 0 {
            -d
        } else {
            d as int
        }),
{
    if d < 0 {
        (-d) as u64
    } else {
        d as u64
    }
}

/// Whether the pointer moved far enough from the press to make it a drag.
pub fn passes_threshold(start: (i64, i64), now: (i64, i64), scale_factor: i32) -> (r: bool)
    ensures
        r == far_enough(start, now, scale_factor),
{
    let dx: i128 = now.0 as i128 - start.0 as i128;
    let dy: i128 = now.1 as i128 - start.1 as i128;
    let s: i64 = if scale_factor < 1 {
        1
    } else {
        scale_factor as i64
    };
    let t: i64 = DRAG_THRESHOLD_LOGICAL_PX * UNITS_PER_PX * s;
    let x: u64 = size_of(dx);
    let y: u64 = size_of(dy);
    proof {
        assert(dx * dx >= 0) by (nonlinear_arith);
        assert(dy * dy >= 0) by (nonlinear_arith);
        assert(dx * dx == x * x) by (nonlinear_arith)
            requires
                x == dx || x == -dx,
        ;
        assert(dy * dy == y * y) by (nonlinear_arith)
            requires
                y == dy || y == -dy,
        ;
        if x > t {
            lemma_square_grows(dx as int, t as int);
        }
        if y > t {
            lemma_square_grows(dy as int, t as int);
        }
    }
    if x > t as u64 || y > t as u64 {
        return true;
    }
    assert(0 <= x * x <= t * t && 0 <= y * y <= t * t && t * t <= 0x1000_0000_0000 * 0x1000_0000_0000)
        by (nonlinear_arith)
        requires
            0 <= x <= t,
            0 <= y <= t,
            0 <= t <= 0x1000_0000_0000,
    ;
    square(x) + square(y) > square(t as u64)
}

/// The pointer moved while the button of the window `window_id` is held.
pub fn motion(
    drag: &mut Option<GlobalDragState>,
    window_id: u64,
    root: (i64, i64),
    scale_factor: i32,
) -> (r: Motion)
    ensures
        match *old(drag) {
            Some(d) => {
                let moved = d.window_id == window_id && far_enough(
                    (d.start_root_x, d.start_root_y),
                    root,
                    scale_factor,
                );
                &&& r == (if !moved {
                    Motion::Nothing
                } else if d.is_dragging {
                    Motion::Continued
                } else {
                    Motion::Began
                })
                &&& *final(drag) == Some(
                    GlobalDragState { is_dragging: d.is_dragging || moved, ..d },
                )
            },
            None => r == Motion::Nothing && *final(drag) is None,
        },
{
    match drag.take() {
        Some(mut d) => {
            let moved: bool = d.window_id == window_id && passes_threshold(
                (d.start_root_x, d.start_root_y),
                root,
                scale_factor,
            );
            let r: Motion = if !moved {
                Motion::Nothing
            } else if d.is_dragging {
                Motion::Continued
            } else {
                Motion::Began
            };
            if moved {
                d.is_dragging = true;
            }
            *drag = Some(d);
            r
        },
        None => Motion::Nothing,
    }
}

/// A drag goes to another output: the pointer is over an output, and it is not the
/// source.
pub open spec fn crosses(hover: Option<String>, source: Option<String>) -> bool {
    hover is Some && text::opt(hover) != text::opt(source)
}

/// Whether the output under the pointer is another one than the source, and the
/// target that this makes.
pub fn decide_hover_target(hover_output: Option<String>, source_output: &Option<String>) -> (r: (
    bool,
    Option<String>,
))
    ensures
        r.0 == crosses(hover_output, *source_output),
        r.1 == (if crosses(hover_output, *source_output) {
            hover_output
        } else {
            None
        }),
{
    let cross: bool = hover_output.is_some() && !text::same_opt(&hover_output, source_output);
    if cross {
        (true, hover_output)
    } else {
        (false, None)
    }
}

/// A drag after the pointer went to a point and a target.
pub open spec fn moved_to(
    d: GlobalDragState,
    x: i64,
    y: i64,
    target: Option<String>,
) -> GlobalDragState {
    GlobalDragState {
        current_global_x: x,
        current_global_y: y,
        target_output: target,
        target_slot_valid: d.target_slot_valid && text::opt(d.target_output) == text::opt(target),
        ..d
    }
}

/// Stores the pointer's position and the other output under it. The slot there is
/// no longer valid where the output changed.
pub fn store_drag_position(
    drag: &mut Option<GlobalDragState>,
    window_id: u64,
    global_x: i64,
    global_y: i64,
    target: Option<String>,
)
    ensures
        *final(drag) == (match *old(drag) {
            Some(d) => if d.window_id == window_id {
                Some(moved_to(d, global_x, global_y, target))
            } else {
                Some(d)
            },
            None => None,
        }),
{
    match drag.take() {
        Some(mut d) => {
            if d.window_id == window_id {
                if !text::same_opt(&d.target_output, &target) {
                    d.target_slot_valid = false;
                }
                d.current_global_x = global_x;
                d.current_global_y = global_y;
                d.target_output = target;
            }
            *drag = Some(d);
        },
        None => {},
    }
}

/// Stores the slot on the source bar under the pointer.
pub fn store_local_slot(drag: &mut Option<GlobalDragState>, window_id: u64, slot: usize)
    ensures
        *final(drag) == (match *old(drag) {
            Some(d) => if d.window_id == window_id {
                Some(GlobalDragState { current_target_slot: slot, target_slot: slot, ..d })
            } else {
                Some(d)
            },
            None => None,
        }),
{
    match drag.take() {
        Some(mut d) => {
            if d.window_id == window_id {
                d.current_target_slot = slot;
                d.target_slot = slot;
            }
            *drag = Some(d);
        },
        None => {},
    }
}

/// Stores the slot on the target's bar, which is valid from then on.
pub fn store_target_slot(drag: &mut Option<GlobalDragState>, window_id: u64, slot: usize)
    ensures
        *final(drag) == (match *old(drag) {
            Some(d) => if d.window_id == window_id {
                Some(GlobalDragState { target_slot: slot, target_slot_valid: true, ..d })
            } else {
                Some(d)
            },
            None => None,
        }),
{
    match drag.take() {
        Some(mut d) => {
            if d.window_id == window_id {
                d.target_slot = slot;
                d.target_slot_valid = true;
            }
            *drag = Some(d);
        },
        None => {},
    }
}

/// Whether the bars have to be drawn anew after a movement: always over another
/// output, and when the target changed otherwise.
pub fn motion_redraws(
    is_cross_monitor: bool,
    previous: &Option<String>,
    target: &Option<String>,
) -> (r: bool)
    ensures
        r == (is_cross_monitor || text::opt(*previous) != text::opt(*target)),
{
    is_cross_monitor || !text::same_opt(previous, target)
}

/// A drag that has just reached an output is appended there when released: the
/// slot of the output that it left is not used.
pub proof fn law_fast_drop_appends(d: GlobalDragState, x: i64, y: i64, target: String, click: bool)
    requires
        d.is_dragging,
        text::opt(d.target_output) != Some(target@),
    ensures
        action_of(moved_to(d, x, y, Some(target)), click) == (DragAction::MoveToMonitor {
            output: target,
            slot_1based: None,
        }),
{
}

/// The target of a drag is never the output that it comes from.
pub proof fn law_target_is_another_output(hover: Option<String>, source: Option<String>)
    ensures
        crosses(hover, source) ==> text::opt(hover) != text::opt(source) && hover is Some,
        crosses(hover, source) || hover is None || text::opt(hover) == text::opt(source),
{
}

/// The thickness of the bar, at least zero.
pub open spec fn thickness(bar_size: i32) -> int {
    if bar_size > 0 {
        bar_size as int
    } else {
        0
    }
}

/// What is left of `a` after `b` is taken off, at least zero.
pub open spec fn rest(a: int, b: int) -> int {
    if a > b {
        a - b
    } else {
        0
    }
}

/// The top left corner of the bar on an output, in logical pixels.
pub open spec fn corner(l: LogicalOutput, position: BarPosition, bar_size: i32) -> (int, int) {
    match position {
        BarPosition::Left => (l.x as int, l.y as int),
        BarPosition::Top => (l.x as int, l.y as int),
        BarPosition::Right => (l.x + rest(l.width as int, thickness(bar_size)), l.y as int),
        BarPosition::Bottom => (l.x as int, l.y + rest(l.height as int, thickness(bar_size))),
    }
}

/// The top left corner of the bar on a named output; the origin where the output
/// or its place is not known.
pub open spec fn origin(
    name: Seq<char>,
    m: Map<Seq<char>, OutputInfo>,
    position: BarPosition,
    bar_size: i32,
) -> (int, int) {
    if m.dom().contains(name) {
        match m[name].logical {
            Some(l) => corner(l, position, bar_size),
            None => (0, 0),
        }
    } else {
        (0, 0)
    }
}

/// The top left corner of the bar on an output, in logical pixels.
pub fn bar_logical_origin(
    output_name: &str,
    outputs: &NameMap<OutputInfo>,
    position: BarPosition,
    bar_size: i32,
) -> (r: (i64, i64))
    ensures
        (r.0 as int, r.1 as int) == origin(output_name@, outputs@, position, bar_size),
        i32::MIN <= r.0 <= i32::MAX + u32::MAX,
        i32::MIN <= r.1 <= i32::MAX + u32::MAX,
{
    let thick: i64 = if bar_size > 0 {
        bar_size as i64
    } else {
        0
    };
    match outputs.get(output_name) {
        Some(out) => match &out.logical {
            Some(l) => {
                let w: i64 = if (l.width as i64) > thick {
                    l.width as i64 - thick
                } else {
                    0
                };
                let h: i64 = if (l.height as i64) > thick {
                    l.height as i64 - thick
                } else {
                    0
                };
                match position {
                    BarPosition::Left => (l.x as i64, l.y as i64),
                    BarPosition::Top => (l.x as i64, l.y as i64),
                    BarPosition::Right => (l.x as i64 + w, l.y as i64),
                    BarPosition::Bottom => (l.x as i64, l.y as i64 + h),
                }
            },
            None => (0, 0),
        },
        None => (0, 0),
    }
}

/// The point lies on the output.
pub open spec fn holds(l: LogicalOutput, px: int, py: int) -> bool {
    l.x * 256 <= px < (l.x + l.width) * 256 && l.y * 256 <= py < (l.y + l.height) * 256
}

/// How far `p` is from the stretch between `lo` and `hi`, with its sign.
pub open spec fn off(p: int, lo: int, hi: int) -> int {
    if p < lo {
        p - lo
    } else if p > hi {
        p - hi
    } else {
        0
    }
}

/// The square of the distance of the point from the output.
pub open spec fn distance(l: LogicalOutput, px: int, py: int) -> int {
    let dx = off(px, l.x * 256, (l.x + l.width) * 256);
    let dy = off(py, l.y * 256, (l.y + l.height) * 256);
    dx * dx + dy * dy
}

/// Some output holds the point.
pub open spec fn some_holds(m: Map<Seq<char>, OutputInfo>, px: int, py: int) -> bool {
    exists|k: Seq<char>| #[trigger]
        m.dom().contains(k) && (m[k].logical matches Some(l) && holds(l, px, py))
}

/// `k` is an output for the point: one that holds it, or, where none does, one to
/// which no other is nearer.
pub open spec fn is_at_point(m: Map<Seq<char>, OutputInfo>, px: int, py: int, k: Seq<char>) -> bool {
    m.dom().contains(k) && (m[k].logical matches Some(l) && if some_holds(m, px, py) {
        holds(l, px, py)
    } else {
        forall|j: Seq<char>| #[trigger]
            m.dom().contains(j) ==> (m[j].logical matches Some(o) ==> distance(l, px, py) <= distance(
                o,
                px,
                py,
            ))
    })
}

/// No output has a known place.
pub open spec fn no_place(m: Map<Seq<char>, OutputInfo>) -> bool {
    forall|k: Seq<char>| #[trigger] m.dom().contains(k) ==> m[k].logical is None
}

/// No output is further from a pointer, along one axis.
const FURTHEST: u64 = 0x8000_0200_0000_0000;

fn offset(p: i64, lo: i64, hi: i64) -> (r: u64)
    requires
        -0x0100_0000_0000 <= lo <= hi <= 0x0200_0000_0000,
    ensures
        r == off(p as int, lo as int, hi as int) || r == -off(p as int, lo as int, hi as int),
        r <= FURTHEST,
{
    if p < lo {
        (lo as i128 - p as i128) as u64
    } else if p > hi {
        (p as i128 - hi as i128) as u64
    } else {
        0
    }
}

fn distance_of(l: &LogicalOutput, px: i64, py: i64) -> (r: u128)
    ensures
        r == distance(*l, px as int, py as int),
{
    let x0: i64 = l.x as i64 * 256;
    let x1: i64 = (l.x as i64 + l.width as i64) * 256;
    let y0: i64 = l.y as i64 * 256;
    let y1: i64 = (l.y as i64 + l.height as i64) * 256;
    let dx: u64 = offset(px, x0, x1);
    let dy: u64 = offset(py, y0, y1);
    proof {
        let ox = off(px as int, x0 as int, x1 as int);
        let oy = off(py as int, y0 as int, y1 as int);
        assert(dx * dx == ox * ox) by (nonlinear_arith)
            requires
                dx == ox || dx == -ox,
        ;
        assert(dy * dy == oy * oy) by (nonlinear_arith)
            requires
                dy == oy || dy == -oy,
        ;
        assert(dx * dx + dy * dy <= u128::MAX) by (nonlinear_arith)
            requires
                0 <= dx <= 0x8000_0200_0000_0000,
                0 <= dy <= 0x8000_0200_0000_0000,
        ;
    }
    square(dx) + square(dy)
}

fn holds_point(l: &LogicalOutput, px: i64, py: i64) -> (r: bool)
    ensures
        r == holds(*l, px as int, py as int),
{
    l.x as i64 * 256 <= px && px < (l.x as i64 + l.width as i64) * 256 && l.y as i64 * 256 <= py && py < (
    l.y as i64 + l.height as i64) * 256
}

/// The outputs for a point.
pub open spec fn at_point(m: Map<Seq<char>, OutputInfo>, px: int, py: int) -> spec_fn(Seq<char>) -> bool {
    |k: Seq<char>| is_at_point(m, px, py, k)
}

fn mark_holders(px: i64, py: i64, all: &NameMap<OutputInfo>) -> (r: (Vec<bool>, bool))
    ensures
        r.0@.len() == all.entries().len(),
        forall|j: int|
            0 <= j < r.0@.len() ==> #[trigger] r.0@[j] == (all.entries()[j].1.logical matches Some(l)
                && holds(l, px as int, py as int)),
        r.1 == exists|j: int| 0 <= j < r.0@.len() && #[trigger] r.0@[j],
{
    let n: usize = all.len();
    let ghost e: Seq<(String, OutputInfo)> = all.entries();
    let mut marks: Vec<bool> = Vec::new();
    let mut some: bool = false;
    let mut i: usize = 0;
    while i < n
        invariant
            n == e.len(),
            e == all.entries(),
            i <= n,
            marks@.len() == i,
            forall|j: int|
                0 <= j < i ==> #[trigger] marks@[j] == (e[j].1.logical matches Some(l) && holds(
                    l,
                    px as int,
                    py as int,
                )),
            some == exists|j: int| 0 <= j < i && #[trigger] marks@[j],
        decreases n - i,
    {
        let here: bool = match &all.value_at(i).logical {
            Some(l) => holds_point(l, px, py),
            None => false,
        };
        let ghost before: Seq<bool> = marks@;
        marks.push(here);
        proof {
            if here {
                assert(marks@[i as int]);
            }
            if some {
                let j = choose|j: int| 0 <= j < i && #[trigger] before[j];
                assert(marks@[j]);
            }
        }
        some = some || here;
        i = i + 1;
    }
    (marks, some)
}

fn least_distance(px: i64, py: i64, all: &NameMap<OutputInfo>) -> (r: Option<u128>)
    ensures
        match r {
            Some(d) => (exists|b: int|
                0 <= b < all.entries().len() && ((#[trigger] all.entries()[b]).1.logical matches Some(l)
                    && d == distance(l, px as int, py as int))) && forall|j: int|
                0 <= j < all.entries().len() ==> ((#[trigger] all.entries()[j]).1.logical matches Some(
                    o,
                ) ==> d <= distance(o, px as int, py as int)),
            None => forall|j: int|
                0 <= j < all.entries().len() ==> (#[trigger] all.entries()[j]).1.logical is None,
        },
{
    let n: usize = all.len();
    let ghost e: Seq<(String, OutputInfo)> = all.entries();
    let mut best: Option<u128> = None;
    let mut i: usize = 0;
    while i < n
        invariant
            n == e.len(),
            e == all.entries(),
            i <= n,
            match best {
                Some(d) => (exists|b: int|
                    0 <= b < i && ((#[trigger] e[b]).1.logical matches Some(l) && d == distance(
                        l,
                        px as int,
                        py as int,
                    ))) && forall|j: int|
                    0 <= j < i ==> ((#[trigger] e[j]).1.logical matches Some(o) ==> d <= distance(
                        o,
                        px as int,
                        py as int,
                    )),
                None => forall|j: int| 0 <= j < i ==> (#[trigger] e[j]).1.logical is None,
            },
        decreases n - i,
    {
        if let Some(l) = &all.value_at(i).logical {
            let d: u128 = distance_of(l, px, py);
            assert(e[i as int].1.logical == Some(*l));
            match best {
                Some(least) => {
                    if d < least {
                        best = Some(d);
                    }
                },
                None => {
                    best = Some(d);
                },
            }
        }
        i = i + 1;
    }
    best
}

fn mark_nearest(px: i64, py: i64, all: &NameMap<OutputInfo>, least: u128) -> (r: Vec<bool>)
    ensures
        r@.len() == all.entries().len(),
        forall|j: int|
            0 <= j < r@.len() ==> #[trigger] r@[j] == (all.entries()[j].1.logical matches Some(l)
                && distance(l, px as int, py as int) == least),
{
    let n: usize = all.len();
    let ghost e: Seq<(String, OutputInfo)> = all.entries();
    let mut marks: Vec<bool> = Vec::new();
    let mut i: usize = 0;
    while i < n
        invariant
            n == e.len(),
            e == all.entries(),
            i <= n,
            marks@.len() == i,
            forall|j: int|
                0 <= j < i ==> #[trigger] marks@[j] == (e[j].1.logical matches Some(l) && distance(
                    l,
                    px as int,
                    py as int,
                ) == least),
        decreases n - i,
    {
        let near: bool = match &all.value_at(i).logical {
            Some(l) => distance_of(l, px, py) == least,
            None => false,
        };
        marks.push(near);
        i = i + 1;
    }
    marks
}

/// The output at a point: one that holds it, or else the nearest, so that a
/// pointer in a gap between monitors does not lose its target. Of several, the one
/// whose name sorts first.
pub fn find_output_at_point(px: i64, py: i64, outputs: &NameMap<OutputInfo>) -> (r: Option<String>)
    ensures
        text::opt(r) == outputs::first(
            outputs@,
            at_point(outputs@, px as int, py as int),
        ),
        match r {
            Some(k) => is_at_point(outputs@, px as int, py as int, k@),
            None => no_place(outputs@),
        },
{
    let ghost e: Seq<(String, OutputInfo)> = outputs.entries();
    let ghost m: Map<Seq<char>, OutputInfo> = outputs@;
    let ghost ok = at_point(m, px as int, py as int);
    if outputs.len() == 0 {
        assert forall|k: Seq<char>| !m.dom().contains(k) by {
            if m.dom().contains(k) {
                names::lemma_named(e, k);
            }
        }
        return None;
    }
    let (holders, some): (Vec<bool>, bool) = mark_holders(px, py, outputs);
    let marks: Vec<bool> = if some {
        proof {
            let b = choose|j: int| 0 <= j < holders@.len() && #[trigger] holders@[j];
            names::lemma_entry(e, b);
            assert(m.dom().contains(e[b].0@));
            assert(some_holds(m, px as int, py as int));
            assert forall|j: int| 0 <= j < e.len() implies #[trigger] holders@[j] == ok(e[j].0@) by {
                names::lemma_entry(e, j);
            }
        }
        holders
    } else {
        proof {
            assert forall|k: Seq<char>| #[trigger] m.dom().contains(k) implies !(
            m[k].logical matches Some(l) && holds(l, px as int, py as int)) by {
                names::lemma_named(e, k);
                assert(!holders@[names::position(e, k)]);
            }
            assert(!some_holds(m, px as int, py as int));
        }
        match least_distance(px, py, outputs) {
            Some(d) => {
                let near: Vec<bool> = mark_nearest(px, py, outputs, d);
                proof {
                    let b = choose|b: int|
                        0 <= b < e.len() && ((#[trigger] e[b]).1.logical matches Some(l) && d == distance(
                            l,
                            px as int,
                            py as int,
                        ));
                    assert(near@[b]);
                    names::lemma_entry(e, b);
                    assert forall|j: int| 0 <= j < e.len() implies #[trigger] near@[j] == ok(e[j].0@) by {
                        names::lemma_entry(e, j);
                        assert(m.dom().contains(e[b].0@));
                        if near@[j] {
                            assert forall|k: Seq<char>| #[trigger] m.dom().contains(k) implies (
                            m[k].logical matches Some(o) ==> distance(
                                e[j].1.logical->0,
                                px as int,
                                py as int,
                            ) <= distance(o, px as int, py as int)) by {
                                names::lemma_named(e, k);
                            }
                        }
                    }
                }
                near
            },
            None => {
                proof {
                    assert forall|k: Seq<char>| #[trigger] m.dom().contains(k) implies m[k].logical is None by {
                        names::lemma_named(e, k);
                    }
                    assert(!outputs::any(m, ok));
                }
                return None;
            },
        }
    };
    match outputs::first_marked(outputs, &marks, Ghost(ok)) {
        Some(k) => {
            assert(marks@[k as int] == ok(e[k as int].0@));
            Some(outputs.name_at(k).clone())
        },
        None => {
            proof {
                let b = choose|b: int| 0 <= b < marks@.len() && #[trigger] marks@[b];
                names::lemma_entry(e, b);
                assert(m.dom().contains(e[b].0@) && ok(e[b].0@));
            }
            None
        },
    }
}

/// The output at a point depends on the outputs alone, not on the order in which they
/// are held: the same outputs give the same one, and so do ties.
pub proof fn law_output_at_a_point_is_fixed(a: NameMap<OutputInfo>, b: NameMap<OutputInfo>, px: int, py: int)
    requires
        forall|k: Seq<char>| #[trigger] a@.dom().contains(k) == b@.dom().contains(k),
        forall|k: Seq<char>| #[trigger] a@.dom().contains(k) ==> a@[k] == b@[k],
    ensures
        outputs::first(a@, at_point(a@, px, py)) == outputs::first(b@, at_point(b@, px, py)),
{
    assert(a@ =~= b@);
}

/// The point in the compositor's space, in 256ths of a pixel, of a point on the
/// bar's own surface.
pub open spec fn niri_point(
    root: (i64, i64),
    source: Option<String>,
    m: Map<Seq<char>, OutputInfo>,
    position: BarPosition,
    bar_size: i32,
) -> (int, int) {
    let o = match source {
        Some(name) => origin(name@, m, position, bar_size),
        None => (0int, 0int),
    };
    (o.0 * 256 + root.0, o.1 * 256 + root.1)
}

/// Maps a point on the bar's own surface into the compositor's space, and finds
/// the output there.
pub fn map_root_to_niri(
    root: (i64, i64),
    source_output: &Option<String>,
    outputs: &NameMap<OutputInfo>,
    position: BarPosition,
    bar_size: i32,
) -> (r: ((i64, i64), Option<String>))
    requires
        on_screen(root),
    ensures
        (r.0.0 as int, r.0.1 as int) == niri_point(root, *source_output, outputs@, position, bar_size),
        text::opt(r.1) == outputs::first(
            outputs@,
            at_point(outputs@, r.0.0 as int, r.0.1 as int),
        ),
        match r.1 {
            Some(k) => is_at_point(outputs@, r.0.0 as int, r.0.1 as int, k@),
            None => no_place(outputs@),
        },
{
    let o: (i64, i64) = match source_output {
        Some(name) => bar_logical_origin(name.as_str(), outputs, position, bar_size),
        None => (0, 0),
    };
    let p: (i64, i64) = (o.0 * 256 + root.0, o.1 * 256 + root.1);
    let hover: Option<String> = find_output_at_point(p.0, p.1, outputs);
    (p, hover)
}

/// Maps a point on an overlay, which covers a whole output, into the compositor's
/// space. The point stays as it is where the output or its place is not known.
pub fn map_overlay_to_niri(
    local: (i64, i64),
    hover: &Option<String>,
    outputs: &NameMap<OutputInfo>,
) -> (r: (i64, i64))
    requires
        on_screen(local),
    ensures
        (r.0 as int, r.1 as int) == niri_point(local, *hover, outputs@, BarPosition::Left, 0),
{
    let o: (i64, i64) = match hover {
        Some(name) => match outputs.get(name.as_str()) {
            Some(out) => match &out.logical {
                Some(l) => (l.x as i64, l.y as i64),
                None => (0, 0),
            },
            None => (0, 0),
        },
        None => (0, 0),
    };
    (o.0 * 256 + local.0, o.1 * 256 + local.1)
}

/// The size of the cursor that stands for the dragged window, and the place of
/// its hot spot on both axes.
pub fn drag_cursor(icon_size: i32) -> (r: (i32, i32))
    ensures
        r.0 == (if icon_size <= 0 {
            20
        } else {
            icon_size as int
        }),
        r.1 == r.0 as int / 2,
{
    let size: i32 = if icon_size <= 0 {
        20
    } else {
        icon_size
    };
    (size, size / 2)
}

/// The first child from `i` on that the pointer is over.
pub open spec fn child_from(bounds: Seq<ChildBounds>, pointer: int, i: int) -> Option<int>
    decreases bounds.len() - i,
{
    if i < 0 || i >= bounds.len() {
        None
    } else if bounds[i].pos <= pointer < bounds[i].pos + bounds[i].len {
        Some(i)
    } else {
        child_from(bounds, pointer, i + 1)
    }
}

/// The slot that the pointer is at: that of the child under it; the first before
/// the first child, the last after the last; the current one in a gap.
pub open spec fn slot_at(bounds: Seq<ChildBounds>, pointer: int, current: int) -> int {
    if bounds.len() == 0 {
        0
    } else if bounds.len() == 1 {
        0
    } else {
        match child_from(bounds, pointer, 0) {
            Some(i) => i,
            None => if pointer < bounds[0].pos {
                0
            } else if pointer >= bounds.last().pos + bounds.last().len {
                bounds.len() - 1
            } else {
                current
            },
        }
    }
}

/// The slot on the same bar that the pointer is at.
pub fn reorder_target(bounds: &[ChildBounds], pointer: i32, current_pos: usize) -> (r: usize)
    ensures
        r == slot_at(bounds@, pointer as int, current_pos as int),
{
    let total: usize = bounds.len();
    if total <= 1 {
        return 0;
    }
    let p: i64 = pointer as i64;
    let mut i: usize = 0;
    while i < total
        invariant
            total == bounds@.len(),
            i <= total,
            p == pointer,
            child_from(bounds@, p as int, i as int) == child_from(bounds@, p as int, 0),
        decreases total - i,
    {
        if p >= bounds[i].pos as i64 && p < bounds[i].pos as i64 + bounds[i].len as i64 {
            return i;
        }
        i = i + 1;
    }
    if p < bounds[0].pos as i64 {
        0
    } else if p >= bounds[total - 1].pos as i64 + bounds[total - 1].len as i64 {
        total - 1
    } else {
        current_pos
    }
}

// ---------------------------------------------------------------------------
// What a drag comes to
// ---------------------------------------------------------------------------

/// A press that never became a drag is a click. A drag over another output moves the
/// window there, to the slot that is shown there or behind all; one along its own bar moves
/// the column, and nothing is asked for where the window is dropped where it was. Slots are
/// counted from one.
pub proof fn law_release_does_what_was_dragged(d: GlobalDragState, click_to_focus: bool)
    requires
        slots_count(d),
    ensures
        !d.is_dragging && click_to_focus ==> action_of(d, click_to_focus) is Focus,
        !d.is_dragging && !click_to_focus ==> action_of(d, click_to_focus) is Nothing,
        d.is_dragging && d.target_output is Some ==> (action_of(d, click_to_focus) matches DragAction::MoveToMonitor {
            output,
            slot_1based,
        } && output == d.target_output->0 && (d.target_slot_valid ==> slot_1based is Some && slot_1based->0 - 1
            == d.target_slot) && (!d.target_slot_valid ==> slot_1based is None)),
        d.is_dragging && d.target_output is None && d.current_target_slot == d.source_index ==> action_of(
            d,
            click_to_focus,
        ) is Nothing,
        d.is_dragging && d.target_output is None && d.current_target_slot != d.source_index ==> (action_of(
            d,
            click_to_focus,
        ) matches DragAction::MoveToColumn { col_1based } && col_1based - 1 == d.current_target_slot),
{
}

/// The threshold of a drag is a distance: along one axis the pointer has to move by more
/// than six logical pixels of the monitor, in either direction; it does not matter in which
/// direction a movement goes, nor along which axis.
pub proof fn law_threshold_is_a_distance(start: (i64, i64), now: (i64, i64), scale_factor: i32)
    ensures
        now.1 == start.1 && scale_factor >= 1 ==> far_enough(start, now, scale_factor) == (now.0 - start.0 > 6 * 256
            * scale_factor || start.0 - now.0 > 6 * 256 * scale_factor),
        far_enough(start, now, scale_factor) == far_enough(now, start, scale_factor),
        far_enough(start, now, scale_factor) == far_enough((start.1, start.0), (now.1, now.0), scale_factor),
        scale_factor < 1 ==> far_enough(start, now, scale_factor) == far_enough(start, now, 1),
{
    let dx = now.0 - start.0;
    let dy = now.1 - start.1;
    let s = if scale_factor < 1 {
        1
    } else {
        scale_factor as int
    };
    let t = 1536 * s;
    assert(DRAG_THRESHOLD_LOGICAL_PX * UNITS_PER_PX * s == t);
    assert((-dx) * (-dx) == dx * dx) by (nonlinear_arith);
    assert((-dy) * (-dy) == dy * dy) by (nonlinear_arith);
    assert(start.0 - now.0 == -dx && start.1 - now.1 == -dy);
    if dx > t || -dx > t {
        assert(dx * dx > t * t) by (nonlinear_arith)
            requires
                dx > t || -dx > t,
                t >= 0,
        ;
    } else {
        assert(dx * dx <= t * t) by (nonlinear_arith)
            requires
                dx <= t,
                -dx <= t,
        ;
    }
    assert(dy == 0 ==> dy * dy == 0);
}

/// A further movement in the same direction passes the threshold too.
pub proof fn law_further_is_far_enough(start: (i64, i64), now: (i64, i64), further: (i64, i64), scale_factor: i32)
    requires
        far_enough(start, now, scale_factor),
        start.0 <= now.0 <= further.0,
        start.1 <= now.1 <= further.1,
    ensures
        far_enough(start, further, scale_factor),
{
    let dx = now.0 - start.0;
    let dy = now.1 - start.1;
    let ex = further.0 - start.0;
    let ey = further.1 - start.1;
    assert(dx * dx <= ex * ex) by (nonlinear_arith)
        requires
            0 <= dx <= ex,
    ;
    assert(dy * dy <= ey * ey) by (nonlinear_arith)
        requires
            0 <= dy <= ey,
    ;
}

/// A bar lies at the edge of its output: at the left and top it begins where the output
/// does, at the right and bottom it ends where the output ends.
pub proof fn law_bar_lies_at_its_edge(
    name: Seq<char>,
    m: Map<Seq<char>, OutputInfo>,
    l: LogicalOutput,
    bar_size: i32,
)
    requires
        m.dom().contains(name),
        m[name].logical == Some(l),
        0 <= bar_size,
    ensures
        origin(name, m, BarPosition::Left, bar_size) == (l.x as int, l.y as int),
        origin(name, m, BarPosition::Top, bar_size) == (l.x as int, l.y as int),
        origin(name, m, BarPosition::Right, bar_size).1 == l.y,
        origin(name, m, BarPosition::Bottom, bar_size).0 == l.x,
        bar_size <= l.width ==> origin(name, m, BarPosition::Right, bar_size).0 + bar_size == l.x + l.width,
        bar_size <= l.height ==> origin(name, m, BarPosition::Bottom, bar_size).1 + bar_size == l.y + l.height,
        bar_size > l.width ==> origin(name, m, BarPosition::Right, bar_size).0 == l.x,
        bar_size > l.height ==> origin(name, m, BarPosition::Bottom, bar_size).1 == l.y,
{
}

/// A bar on an output that is not known, or has no place, counts from the origin.
pub proof fn law_bar_without_a_place_is_at_the_origin(
    name: Seq<char>,
    m: Map<Seq<char>, OutputInfo>,
    position: BarPosition,
    bar_size: i32,
)
    requires
        m.dom().contains(name) ==> m[name].logical is None,
    ensures
        origin(name, m, position, bar_size) == (0int, 0int),
{
}

/// The corner of the bar's surface lies at the corner of the bar, and a point moves in the
/// compositor's space as it moves on the surface.
pub proof fn law_points_move_together(
    a: (i64, i64),
    b: (i64, i64),
    name: String,
    m: Map<Seq<char>, OutputInfo>,
    position: BarPosition,
    bar_size: i32,
)
    ensures
        ({
            let p = niri_point(a, Some(name), m, position, bar_size);
            let q = niri_point(b, Some(name), m, position, bar_size);
            &&& p.0 - q.0 == a.0 - b.0
            &&& p.1 - q.1 == a.1 - b.1
        }),
        niri_point((0, 0), Some(name), m, position, bar_size) == (
            origin(name@, m, position, bar_size).0 * 256,
            origin(name@, m, position, bar_size).1 * 256,
        ),
        niri_point(a, None, m, position, bar_size) == (a.0 as int, a.1 as int),
{
}

/// `q` lies on an output or its edge, in 256ths of a pixel.
pub open spec fn lies_on(l: LogicalOutput, q: (int, int)) -> bool {
    l.x * 256 <= q.0 <= (l.x + l.width) * 256 && l.y * 256 <= q.1 <= (l.y + l.height) * 256
}

/// The square of the distance of two points.
pub open spec fn apart(p: (int, int), q: (int, int)) -> int {
    (p.0 - q.0) * (p.0 - q.0) + (p.1 - q.1) * (p.1 - q.1)
}

/// The point of a stretch that is nearest to `p`.
spec fn clamped(p: int, lo: int, hi: int) -> int {
    if p < lo {
        lo
    } else if p > hi {
        hi
    } else {
        p
    }
}

/// No point of an output is nearer than its distance, and one is as near.
proof fn lemma_distance(l: LogicalOutput, p: (int, int), q: (int, int))
    requires
        lies_on(l, q),
    ensures
        distance(l, p.0, p.1) <= apart(p, q),
        ({
            let c = (
                clamped(p.0, l.x * 256, (l.x + l.width) * 256),
                clamped(p.1, l.y * 256, (l.y + l.height) * 256),
            );
            lies_on(l, c) && apart(p, c) == distance(l, p.0, p.1)
        }),
{
    let dx = off(p.0, l.x * 256, (l.x + l.width) * 256);
    let dy = off(p.1, l.y * 256, (l.y + l.height) * 256);
    let ex = p.0 - q.0;
    let ey = p.1 - q.1;
    assert(dx * dx <= ex * ex) by (nonlinear_arith)
        requires
            0 <= dx <= ex || ex <= dx <= 0 || dx == 0,
    ;
    assert(dy * dy <= ey * ey) by (nonlinear_arith)
        requires
            0 <= dy <= ey || ey <= dy <= 0 || dy == 0,
    ;
}

/// The output at a point is one that the point lies on; where it lies on none, it is one to
/// which it is as near as to any other: no point of any output is nearer than some point of
/// this one.
pub proof fn law_output_at_a_point_is_the_nearest(
    m: Map<Seq<char>, OutputInfo>,
    p: (int, int),
    k: Seq<char>,
    j: Seq<char>,
    q: (int, int),
) -> (c: (int, int))
    requires
        is_at_point(m, p.0, p.1, k),
        m.dom().contains(j),
        m[j].logical is Some,
        lies_on(m[j].logical->0, q),
    ensures
        m.dom().contains(k),
        m[k].logical is Some,
        lies_on(m[k].logical->0, c),
        apart(p, c) <= apart(p, q),
{
    let l = m[k].logical->0;
    let o = m[j].logical->0;
    let c = (clamped(p.0, l.x * 256, (l.x + l.width) * 256), clamped(p.1, l.y * 256, (l.y + l.height) * 256));
    lemma_distance(l, p, (l.x * 256, l.y * 256));
    lemma_distance(o, p, q);
    if some_holds(m, p.0, p.1) {
        assert(c == p);
        assert(apart(p, c) == 0);
        assert(0 <= apart(p, q)) by (nonlinear_arith)
            requires
                apart(p, q) == (p.0 - q.0) * (p.0 - q.0) + (p.1 - q.1) * (p.1 - q.1),
        ;
    } else {
        assert(m.dom().contains(j));
    }
    c
}

/// A point that lies on an output is given to an output that it lies on.
pub proof fn law_point_on_an_output_finds_it(
    m: Map<Seq<char>, OutputInfo>,
    p: (int, int),
    k: Seq<char>,
    j: Seq<char>,
    l: LogicalOutput,
)
    requires
        is_at_point(m, p.0, p.1, k),
        m.dom().contains(j),
        m[j].logical == Some(l),
        l.x * 256 <= p.0 < l.x * 256 + l.width * 256,
        l.y * 256 <= p.1 < l.y * 256 + l.height * 256,
    ensures
        m[k].logical matches Some(o) && o.x * 256 <= p.0 < o.x * 256 + o.width * 256 && o.y * 256 <= p.1 < o.y * 256
            + o.height * 256,
{
    assert(holds(l, p.0, p.1));
}

proof fn lemma_child_from(bounds: Seq<ChildBounds>, pointer: int, i: int)
    requires
        0 <= i,
    ensures
        match child_from(bounds, pointer, i) {
            Some(k) => i <= k < bounds.len() && bounds[k].pos <= pointer < bounds[k].pos + bounds[k].len && forall|j: int|
                i <= j < k ==> !((#[trigger] bounds[j]).pos <= pointer < bounds[j].pos + bounds[j].len),
            None => forall|j: int|
                i <= j < bounds.len() ==> !((#[trigger] bounds[j]).pos <= pointer < bounds[j].pos + bounds[j].len),
        },
    decreases bounds.len() - i,
{
    if i < bounds.len() && !(bounds[i].pos <= pointer < bounds[i].pos + bounds[i].len) {
        lemma_child_from(bounds, pointer, i + 1);
    }
}

/// A button that is dragged along its bar goes to the slot of the button under the pointer;
/// to the first before all of them, to the last behind them, and it stays over a gap.
pub proof fn law_button_goes_under_the_pointer(bounds: Seq<ChildBounds>, pointer: int, current: int, i: int)
    requires
        bounds.len() > 1,
        0 <= i < bounds.len(),
        bounds[i].pos <= pointer < bounds[i].pos + bounds[i].len,
        forall|j: int| 0 <= j < i ==> (#[trigger] bounds[j]).pos + bounds[j].len <= pointer,
    ensures
        slot_at(bounds, pointer, current) == i,
{
    lemma_child_from(bounds, pointer, 0);
    if let Some(k) = child_from(bounds, pointer, 0) {
        if k < i {
            assert(bounds[k].pos + bounds[k].len <= pointer);
        } else if i < k {
            assert(bounds[i].pos <= pointer);
        }
    } else {
        assert(bounds[i].pos <= pointer);
    }
}

/// Where no button is under the pointer: before the first, behind the last, or in a gap.
pub proof fn law_button_goes_to_the_end_it_is_past(bounds: Seq<ChildBounds>, pointer: int, current: int)
    requires
        bounds.len() > 1,
        forall|j: int|
            0 <= j < bounds.len() ==> pointer < (#[trigger] bounds[j]).pos || bounds[j].pos + bounds[j].len <= pointer,
    ensures
        pointer < bounds[0].pos ==> slot_at(bounds, pointer, current) == 0,
        bounds[0].pos <= pointer && bounds[bounds.len() - 1].pos + bounds[bounds.len() - 1].len <= pointer ==> slot_at(
            bounds,
            pointer,
            current,
        ) == bounds.len() - 1,
        bounds[0].pos <= pointer < bounds[bounds.len() - 1].pos + bounds[bounds.len() - 1].len ==> slot_at(
            bounds,
            pointer,
            current,
        ) == current,
{
    lemma_child_from(bounds, pointer, 0);
    if let Some(k) = child_from(bounds, pointer, 0) {
        assert(bounds[k].pos <= pointer);
    }
}

/// Moving the pointer keeps what the drag is of and whether it goes on. It takes the point
/// and the target; the slot at the target counts on only where the target stays.
pub proof fn law_drag_follows_the_pointer(d: GlobalDragState, x: i64, y: i64, target: Option<String>)
    ensures
        ({
            let r = moved_to(d, x, y, target);
            &&& r.current_global_x == x
            &&& r.current_global_y == y
            &&& r.target_output == target
            &&& r.target_slot_valid == (d.target_slot_valid && (match (d.target_output, target) {
                (Some(a), Some(b)) => a@ == b@,
                (None, None) => true,
                _ => false,
            }))
            &&& r.window_id == d.window_id
            &&& r.source_output == d.source_output
            &&& r.source_index == d.source_index
            &&& r.start_root_x == d.start_root_x
            &&& r.start_root_y == d.start_root_y
            &&& r.is_dragging == d.is_dragging
            &&& r.current_target_slot == d.current_target_slot
            &&& r.target_slot == d.target_slot
            &&& r.generation == d.generation
        }),
{
}

/// A button cannot be pressed while another window is dragged; the press of a window that is
/// not dragged, or of the dragged one itself, takes nothing from anyone.
pub proof fn law_only_a_drag_takes_the_pointer(d: GlobalDragState, window_id: u64)
    ensures
        !is_taken(None, window_id),
        !d.is_dragging ==> !is_taken(Some(d), window_id),
        d.window_id == window_id ==> !is_taken(Some(d), window_id),
        d.is_dragging && d.window_id != window_id ==> is_taken(Some(d), window_id),
{
}

/// There is no place on the outputs where none of them has one.
pub proof fn law_one_output_with_a_place_is_a_place(m: Map<Seq<char>, OutputInfo>, k: Seq<char>)
    ensures
        m.dom().contains(k) && m[k].logical is Some ==> !no_place(m),
        (forall|n: Seq<char>| #[trigger] m.dom().contains(n) ==> m[n].logical is None) ==> no_place(m),
{
}

/// A drag is that of the window that was pressed, and of no other.
pub proof fn law_drag_is_of_its_window(d: GlobalDragState, window_id: u64)
    ensures
        is_of(Some(d), window_id) <==> d.window_id == window_id,
        !is_of(None, window_id),
{
}

} // verus!
