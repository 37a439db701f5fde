//! The compositor's state as the bar keeps it, and how events change it.
use vstd::prelude::*;

use crate::names::NameMap;
use crate::niri::drag;
use crate::niri::drag::GlobalDragState;
use crate::niri::model::{Event, OutputInfo, WindowInfo, WindowLayout, WorkspaceInfo};
use crate::text;

verus! {

/// Outputs, windows and workspaces as last reported.
#[derive(Debug)]
pub struct AppState {
    pub outputs: NameMap<OutputInfo>,
    pub windows: Vec<WindowInfo>,
    pub workspaces: Vec<WorkspaceInfo>,
}

/// The position of the first window with the given id, from `i` on.
pub open spec fn window_from(ws: Seq<WindowInfo>, id: u64, i: int) -> Option<int>
    decreases ws.len() - i,
{
    if i < 0 || i >= ws.len() {
        None
    } else if ws[i].id == id {
        Some(i)
    } else {
        window_from(ws, id, i + 1)
    }
}

/// The output of the last workspace with the given id.
pub open spec fn output_of(ws: Seq<WorkspaceInfo>, id: u64) -> Option<String>
    decreases ws.len(),
{
    if ws.len() == 0 {
        None
    } else if ws.last().id == id {
        ws.last().output
    } else {
        output_of(ws.drop_last(), id)
    }
}

/// A workspace after workspace `id`, which stands on the output `out`, was made
/// the active one, and the focused one too where `focused` says so.
pub open spec fn after_activation(
    w: WorkspaceInfo,
    id: u64,
    focused: bool,
    out: Option<String>,
) -> WorkspaceInfo {
    if w.id == id {
        WorkspaceInfo { is_active: true, is_focused: focused || w.is_focused, ..w }
    } else {
        match out {
            None => w,
            Some(o) => WorkspaceInfo {
                is_active: w.is_active && text::opt(w.output) != Some(o@),
                is_focused: w.is_focused && !focused,
                ..w
            },
        }
    }
}

/// The workspaces after workspace `id` was made active.
pub open spec fn workspaces_activated(ws: Seq<WorkspaceInfo>, id: u64, focused: bool) -> Seq<WorkspaceInfo> {
    ws.map_values(|w: WorkspaceInfo| after_activation(w, id, focused, output_of(ws, id)))
}

/// A window that has the focus if its id is the given one, and no focus otherwise.
pub open spec fn refocused(w: WindowInfo, id: Option<u64>) -> WindowInfo {
    WindowInfo { is_focused: id == Some(w.id), ..w }
}

/// The windows when exactly those with the given id have the focus.
pub open spec fn windows_refocused(ws: Seq<WindowInfo>, id: Option<u64>) -> Seq<WindowInfo> {
    ws.map_values(|w: WindowInfo| refocused(w, id))
}

/// The windows after `window` was opened or changed: a focused one takes the
/// focus from all others; it stands in the place of the first window with its id,
/// or last.
pub open spec fn windows_with(ws: Seq<WindowInfo>, window: WindowInfo) -> Seq<WindowInfo> {
    let base = if window.is_focused {
        windows_refocused(ws, Some(window.id))
    } else {
        ws
    };
    match window_from(ws, window.id, 0) {
        Some(i) => base.update(i, window),
        None => base.push(window),
    }
}

/// The windows without those with the given id.
pub open spec fn windows_without(ws: Seq<WindowInfo>, id: u64) -> Seq<WindowInfo> {
    ws.filter(|w: WindowInfo| w.id != id)
}

/// A workspace after the focus went to a window on workspace `ws_id`.
pub open spec fn after_focus(w: WorkspaceInfo, ws_id: u64) -> WorkspaceInfo {
    WorkspaceInfo { is_focused: w.id == ws_id, is_active: w.is_active || w.id == ws_id, ..w }
}

/// The workspace that holds the window to which the focus goes.
pub open spec fn focus_workspace(ws: Seq<WindowInfo>, id: Option<u64>) -> Option<u64> {
    match id {
        Some(win) => match window_from(ws, win, 0) {
            Some(i) => ws[i].workspace_id,
            None => None,
        },
        None => None,
    }
}

/// The workspaces after the focus went to the window `id`.
pub open spec fn workspaces_focused(
    wss: Seq<WorkspaceInfo>,
    ws: Seq<WindowInfo>,
    id: Option<u64>,
) -> Seq<WorkspaceInfo> {
    match focus_workspace(ws, id) {
        Some(ws_id) => wss.map_values(|w: WorkspaceInfo| after_focus(w, ws_id)),
        None => wss,
    }
}

/// The windows after the first window with the given id took a new layout.
pub open spec fn window_laid_out(ws: Seq<WindowInfo>, id: u64, layout: WindowLayout) -> Seq<WindowInfo> {
    match window_from(ws, id, 0) {
        Some(i) => ws.update(i, WindowInfo { layout: Some(layout), ..ws[i] }),
        None => ws,
    }
}

/// The windows after a list of layout changes, applied one after the other.
pub open spec fn windows_laid_out(ws: Seq<WindowInfo>, changes: Seq<(u64, WindowLayout)>) -> Seq<WindowInfo>
    decreases changes.len(),
{
    if changes.len() == 0 {
        ws
    } else {
        window_laid_out(windows_laid_out(ws, changes.drop_last()), changes.last().0, changes.last().1)
    }
}

/// Whether the outputs have to be fetched anew for an event: the compositor said
/// that they changed, without saying to what.
pub open spec fn lacks_outputs(outputs: Option<NameMap<OutputInfo>>) -> bool {
    match outputs {
        Some(o) => o.entries().len() == 0,
        None => true,
    }
}

/// The position of a window is that of the first one with its id.
pub proof fn lemma_window_from(ws: Seq<WindowInfo>, id: u64, i: int)
    requires
        0 <= i <= ws.len(),
    ensures
        match window_from(ws, id, i) {
            Some(k) => i <= k < ws.len() && ws[k].id == id && forall|j: int|
                i <= j < k ==> (#[trigger] ws[j]).id != id,
            None => forall|j: int| i <= j < ws.len() ==> (#[trigger] ws[j]).id != id,
        },
    decreases ws.len() - i,
{
    if i < ws.len() && ws[i].id != id {
        lemma_window_from(ws, id, i + 1);
    }
}

/// The position of the first window with the given id.
pub fn find_window(ws: &Vec<WindowInfo>, id: u64) -> (r: Option<usize>)
    ensures
        match r {
            Some(k) => window_from(ws@, id, 0) == Some(k as int) && k < ws@.len() && ws@[k as int].id
                == id,
            None => window_from(ws@, id, 0) is None,
        },
{
    let mut i: usize = 0;
    while i < ws.len()
        invariant
            i <= ws@.len(),
            window_from(ws@, id, i as int) == window_from(ws@, id, 0),
        decreases ws@.len() - i,
    {
        if ws[i].id == id {
            return Some(i);
        }
        i = i + 1;
    }
    None
}

fn last_output(ws: &Vec<WorkspaceInfo>, id: u64) -> (r: Option<String>)
    ensures
        r == output_of(ws@, id),
{
    let mut i: usize = ws.len();
    assert(ws@.take(i as int) =~= ws@);
    while 0 < i
        invariant
            i <= ws@.len(),
            output_of(ws@.take(i as int), id) == output_of(ws@, id),
        decreases i,
    {
        assert(ws@.take(i as int).drop_last() =~= ws@.take(i - 1));
        assert(ws@.take(i as int).last() == ws@[i - 1]);
        if ws[i - 1].id == id {
            return ws[i - 1].output.clone();
        }
        i = i - 1;
    }
    None
}

fn refocus(ws: &mut Vec<WindowInfo>, id: Option<u64>)
    ensures
        final(ws)@ == windows_refocused(old(ws)@, id),
{
    let ghost before: Seq<WindowInfo> = ws@;
    let mut i: usize = 0;
    while i < ws.len()
        invariant
            i <= ws@.len(),
            ws@.len() == before.len(),
            forall|j: int| 0 <= j < i ==> ws@[j] == refocused(before[j], id),
            forall|j: int| i <= j < before.len() ==> ws@[j] == before[j],
        decreases ws@.len() - i,
    {
        let focus: bool = match id {
            Some(f) => f == ws[i].id,
            None => false,
        };
        ws[i].is_focused = focus;
        i = i + 1;
    }
    assert(ws@ =~= windows_refocused(before, id));
}

impl AppState {
    /// The state before anything was reported.
    pub fn new() -> (s: Self)
        ensures
            s.outputs@ == Map::<Seq<char>, OutputInfo>::empty(),
            s.windows@ == Seq::<WindowInfo>::empty(),
            s.workspaces@ == Seq::<WorkspaceInfo>::empty(),
    {
        AppState { outputs: NameMap::new(), windows: Vec::new(), workspaces: Vec::new() }
    }

    /// Workspace `id` was made the active one of its output, and the focused one
    /// where `focused` says so.
    pub fn workspace_activated(&mut self, id: u64, focused: bool)
        ensures
            final(self).workspaces@ == workspaces_activated(old(self).workspaces@, id, focused),
            final(self).windows == old(self).windows,
            final(self).outputs == old(self).outputs,
    {
        let ghost before: Seq<WorkspaceInfo> = self.workspaces@;
        let out: Option<String> = last_output(&self.workspaces, id);
        let mut i: usize = 0;
        while i < self.workspaces.len()
            invariant
                i <= self.workspaces@.len(),
                self.workspaces@.len() == before.len(),
                self.windows == old(self).windows,
                self.outputs == old(self).outputs,
                forall|j: int|
                    0 <= j < i ==> self.workspaces@[j] == after_activation(before[j], id, focused, out),
                forall|j: int| i <= j < before.len() ==> self.workspaces@[j] == before[j],
            decreases self.workspaces@.len() - i,
        {
            if self.workspaces[i].id == id {
                self.workspaces[i].is_active = true;
                if focused {
                    self.workspaces[i].is_focused = true;
                }
            } else if out.is_some() {
                if text::same_opt(&self.workspaces[i].output, &out) {
                    self.workspaces[i].is_active = false;
                }
                if focused {
                    self.workspaces[i].is_focused = false;
                }
            }
            i = i + 1;
        }
        assert(self.workspaces@ =~= workspaces_activated(before, id, focused));
    }

    /// A window was opened or changed.
    pub fn window_opened_or_changed(&mut self, window: WindowInfo)
        ensures
            final(self).windows@ == windows_with(old(self).windows@, window),
            final(self).workspaces == old(self).workspaces,
            final(self).outputs == old(self).outputs,
    {
        let at: Option<usize> = find_window(&self.windows, window.id);
        if window.is_focused {
            refocus(&mut self.windows, Some(window.id));
        }
        match at {
            Some(i) => {
                self.windows.set(i, window);
            },
            None => {
                self.windows.push(window);
            },
        }
    }

    /// A window was closed.
    pub fn window_closed(&mut self, id: u64)
        ensures
            final(self).windows@ == windows_without(old(self).windows@, id),
            final(self).workspaces == old(self).workspaces,
            final(self).outputs == old(self).outputs,
    {
        let ghost before: Seq<WindowInfo> = self.windows@;
        let mut kept: Vec<WindowInfo> = Vec::new();
        let mut i: usize = 0;
        let ghost keep = |w: WindowInfo| w.id != id;
        assert(before.take(0) =~= Seq::empty());
        assert(kept@ =~= before.take(0).filter(keep)) by {
            reveal(Seq::filter);
        }
        while i < self.windows.len()
            invariant
                i <= self.windows@.len(),
                self.windows@ == before,
                keep == (|w: WindowInfo| w.id != id),
                kept@ == before.take(i as int).filter(keep),
            decreases self.windows@.len() - i,
        {
            proof {
                reveal(Seq::filter);
                assert(before.take(i + 1).drop_last() =~= before.take(i as int));
            }
            if self.windows[i].id != id {
                kept.push(self.windows[i].copy());
            }
            i = i + 1;
        }
        assert(before.take(before.len() as int) =~= before);
        self.windows = kept;
    }

    /// The focus went to the window `id`, or away from all windows.
    pub fn window_focus_changed(&mut self, id: Option<u64>)
        ensures
            final(self).windows@ == windows_refocused(old(self).windows@, id),
            final(self).workspaces@ == workspaces_focused(
                old(self).workspaces@,
                old(self).windows@,
                id,
            ),
            final(self).outputs == old(self).outputs,
    {
        let ws_id: Option<u64> = match id {
            Some(win) => match find_window(&self.windows, win) {
                Some(i) => self.windows[i].workspace_id,
                None => None,
            },
            None => None,
        };
        assert(ws_id == focus_workspace(self.windows@, id));
        refocus(&mut self.windows, id);
        if let Some(target) = ws_id {
            let ghost before: Seq<WorkspaceInfo> = self.workspaces@;
            let mut i: usize = 0;
            while i < self.workspaces.len()
                invariant
                    i <= self.workspaces@.len(),
                    self.workspaces@.len() == before.len(),
                    self.windows@ == windows_refocused(old(self).windows@, id),
                    self.outputs == old(self).outputs,
                    forall|j: int| 0 <= j < i ==> self.workspaces@[j] == after_focus(before[j], target),
                    forall|j: int| i <= j < before.len() ==> self.workspaces@[j] == before[j],
                decreases self.workspaces@.len() - i,
            {
                if self.workspaces[i].id == target {
                    self.workspaces[i].is_focused = true;
                    self.workspaces[i].is_active = true;
                } else {
                    self.workspaces[i].is_focused = false;
                }
                i = i + 1;
            }
            assert(self.workspaces@ =~= workspaces_focused(before, old(self).windows@, id));
        }
    }

    /// Windows took new places in the layout.
    pub fn window_layouts_changed(&mut self, changes: &Vec<(u64, WindowLayout)>)
        ensures
            final(self).windows@ == windows_laid_out(old(self).windows@, changes@),
            final(self).workspaces == old(self).workspaces,
            final(self).outputs == old(self).outputs,
    {
        let mut k: usize = 0;
        assert(changes@.take(0) =~= Seq::empty());
        while k < changes.len()
            invariant
                k <= changes@.len(),
                self.windows@ == windows_laid_out(old(self).windows@, changes@.take(k as int)),
                self.workspaces == old(self).workspaces,
                self.outputs == old(self).outputs,
            decreases changes@.len() - k,
        {
            assert(changes@.take(k + 1).drop_last() =~= changes@.take(k as int));
            let id: u64 = changes[k].0;
            let layout: WindowLayout = changes[k].1;
            let ghost before: Seq<WindowInfo> = self.windows@;
            match find_window(&self.windows, id) {
                Some(i) => {
                    self.windows[i].layout = Some(layout);
                    assert(self.windows@ =~= window_laid_out(before, id, layout));
                },
                None => {},
            }
            k = k + 1;
        }
        assert(changes@.take(changes@.len() as int) =~= changes@);
    }
}

/// What was fetched anew because outputs changed.
#[derive(Debug)]
pub struct Refetched {
    pub outputs: Option<NameMap<OutputInfo>>,
    pub workspaces: Option<Vec<WorkspaceInfo>>,
}

/// What an event asks for besides the change of the state.
#[derive(Debug, Clone, Copy, PartialEq, Eq)]
pub struct Reaction {
    /// The bars have to be drawn anew.
    pub redraw: bool,
    /// The drag of this window ended because the window was closed.
    pub cancelled_drag: Option<u64>,
}

/// The windows after an event.
pub open spec fn windows_after(ws: Seq<WindowInfo>, event: Event) -> Seq<WindowInfo> {
    match event {
        Event::WindowsChanged { windows } => windows@,
        Event::WindowOpenedOrChanged { window } => windows_with(ws, window),
        Event::WindowClosed { id } => windows_without(ws, id),
        Event::WindowFocusChanged { id } => windows_refocused(ws, id),
        Event::WindowLayoutsChanged { changes } => windows_laid_out(ws, changes@),
        _ => ws,
    }
}

/// The workspaces after an event, with what was fetched for it.
pub open spec fn workspaces_after(
    wss: Seq<WorkspaceInfo>,
    ws: Seq<WindowInfo>,
    event: Event,
    fetched: Option<Vec<WorkspaceInfo>>,
) -> Seq<WorkspaceInfo> {
    match event {
        Event::WorkspacesChanged { workspaces } => workspaces@,
        Event::WorkspaceActivated { id, focused } => workspaces_activated(wss, id, focused),
        Event::WindowFocusChanged { id } => workspaces_focused(wss, ws, id),
        Event::OutputsChanged { .. } => match fetched {
            Some(w) => w@,
            None => wss,
        },
        _ => wss,
    }
}

/// The outputs after an event, with what was fetched for it: what the event says,
/// unless that is nothing or an empty list.
pub open spec fn outputs_after(
    outs: NameMap<OutputInfo>,
    event: Event,
    fetched: Option<NameMap<OutputInfo>>,
) -> NameMap<OutputInfo> {
    match event {
        Event::OutputsChanged { outputs } => if !lacks_outputs(outputs) {
            outputs->0
        } else {
            match fetched {
                Some(o) => o,
                None => outs,
            }
        },
        _ => outs,
    }
}

/// The drag after an event: it ends when its window is closed.
pub open spec fn drag_after(dragged: Option<GlobalDragState>, event: Event) -> Option<GlobalDragState> {
    match event {
        Event::WindowClosed { id } => if drag::is_of(dragged, id) {
            None
        } else {
            dragged
        },
        _ => dragged,
    }
}

/// Whether the outputs have to be fetched for an event, and whether the workspaces
/// have to be.
pub fn refetch_for(event: &Event) -> (r: (bool, bool))
    ensures
        r.0 == (*event matches Event::OutputsChanged { outputs } && lacks_outputs(outputs)),
        r.1 == (event is OutputsChanged),
{
    match event {
        Event::OutputsChanged { outputs } => {
            let lacks: bool = match outputs {
                Some(o) => o.is_empty(),
                None => true,
            };
            (lacks, true)
        },
        _ => (false, false),
    }
}

impl AppState {
    /// Takes an event in, with what was fetched for it.
    pub fn apply_event(
        &mut self,
        event: Event,
        fetched: Refetched,
        dragged: &mut Option<GlobalDragState>,
    ) -> (r: Reaction)
        ensures
            final(self).windows@ == windows_after(old(self).windows@, event),
            final(self).workspaces@ == workspaces_after(
                old(self).workspaces@,
                old(self).windows@,
                event,
                fetched.workspaces,
            ),
            final(self).outputs == outputs_after(old(self).outputs, event, fetched.outputs),
            *final(dragged) == drag_after(*old(dragged), event),
            r.redraw == !(event is Other),
            r.cancelled_drag == (match event {
                Event::WindowClosed { id } => if drag::is_of(*old(dragged), id) {
                    Some(id)
                } else {
                    None
                },
                _ => None,
            }),
    {
        let mut cancelled: Option<u64> = None;
        let mut redraw: bool = true;
        match event {
            Event::WorkspacesChanged { workspaces } => {
                self.workspaces = workspaces;
            },
            Event::WorkspaceActivated { id, focused } => {
                self.workspace_activated(id, focused);
            },
            Event::OutputsChanged { outputs } => {
                let said: Option<NameMap<OutputInfo>> = match outputs {
                    Some(o) => {
                        if o.is_empty() {
                            None
                        } else {
                            Some(o)
                        }
                    },
                    None => None,
                };
                match said {
                    Some(o) => {
                        self.outputs = o;
                    },
                    None => {
                        if let Some(o) = fetched.outputs {
                            self.outputs = o;
                        }
                    },
                }
                if let Some(w) = fetched.workspaces {
                    self.workspaces = w;
                }
            },
            Event::WindowsChanged { windows } => {
                self.windows = windows;
            },
            Event::WindowOpenedOrChanged { window } => {
                self.window_opened_or_changed(window);
            },
            Event::WindowClosed { id } => {
                self.window_closed(id);
                if drag::cancel_drag(dragged, id) {
                    cancelled = Some(id);
                }
            },
            Event::WindowFocusChanged { id } => {
                self.window_focus_changed(id);
            },
            Event::WorkspaceActiveWindowChanged { workspace_id: _, active_window_id: _ } => {},
            Event::WindowLayoutsChanged { changes } => {
                self.window_layouts_changed(&changes);
            },
            Event::Other => {
                redraw = false;
            },
        }
        Reaction { redraw, cancelled_drag: cancelled }
    }
}

/// No two windows have the same id.
pub open spec fn distinct_windows(ws: Seq<WindowInfo>) -> bool {
    forall|i: int, j: int| 0 <= i < j < ws.len() ==> (#[trigger] ws[i]).id != (#[trigger] ws[j]).id
}

/// At most one window has the focus.
pub open spec fn one_focus(ws: Seq<WindowInfo>) -> bool {
    forall|i: int, j: int|
        0 <= i < j < ws.len() ==> !((#[trigger] ws[i]).is_focused && (#[trigger] ws[j]).is_focused)
}

/// What a list of windows reported by the compositor is expected to satisfy.
pub open spec fn sound(ws: Seq<WindowInfo>) -> bool {
    distinct_windows(ws) && one_focus(ws)
}

/// Leaving windows out keeps the rest apart, in their order.
proof fn lemma_without(ws: Seq<WindowInfo>, id: u64)
    ensures
        sound(ws) ==> sound(windows_without(ws, id)),
        forall|i: int|
            0 <= i < windows_without(ws, id).len() ==> ws.contains(#[trigger] windows_without(ws, id)[i])
                && windows_without(ws, id)[i].id != id,
    decreases ws.len(),
{
    let keep = |w: WindowInfo| w.id != id;
    if ws.len() == 0 {
        reveal(Seq::filter);
        assert(ws.filter(keep) =~= ws);
    } else {
        let front = ws.drop_last();
        let w = ws.last();
        lemma_without(front, id);
        assert(ws =~= front.push(w));
        front.lemma_filter_push(w, keep);
        let r = windows_without(front, id);
        assert forall|i: int| 0 <= i < windows_without(ws, id).len() implies ws.contains(
            #[trigger] windows_without(ws, id)[i],
        ) && windows_without(ws, id)[i].id != id by {
            if i < r.len() {
                assert(front.contains(r[i]));
                let k = choose|k: int| 0 <= k < front.len() && front[k] == r[i];
                assert(ws[k] == r[i]);
            } else {
                assert(ws[ws.len() - 1] == w);
            }
        }
        if sound(ws) {
            assert(sound(front)) by {
                assert forall|i: int, j: int| 0 <= i < j < front.len() implies (#[trigger] front[i]).id != (
                #[trigger] front[j]).id && !(front[i].is_focused && front[j].is_focused) by {
                    assert(ws[i] == front[i] && ws[j] == front[j]);
                }
            }
            let next = windows_without(ws, id);
            assert forall|i: int, j: int| 0 <= i < j < next.len() implies (#[trigger] next[i]).id != (
            #[trigger] next[j]).id && !(next[i].is_focused && next[j].is_focused) by {
                if j < r.len() {
                    assert(r[i].id != r[j].id);
                } else {
                    assert(front.contains(r[i]));
                    let k = choose|k: int| 0 <= k < front.len() && front[k] == r[i];
                    assert(ws[k].id != ws[ws.len() - 1].id);
                }
            }
        }
    }
}

/// Layout changes keep ids and focus.
proof fn lemma_laid_out(ws: Seq<WindowInfo>, changes: Seq<(u64, WindowLayout)>)
    ensures
        windows_laid_out(ws, changes).len() == ws.len(),
        forall|i: int|
            0 <= i < ws.len() ==> (#[trigger] windows_laid_out(ws, changes)[i]).id == ws[i].id
                && windows_laid_out(ws, changes)[i].is_focused == ws[i].is_focused,
    decreases changes.len(),
{
    if changes.len() > 0 {
        lemma_laid_out(ws, changes.drop_last());
        lemma_window_from(windows_laid_out(ws, changes.drop_last()), changes.last().0, 0);
    }
}

/// No event that tells of single windows makes two windows share an id, or gives
/// the focus to two at a time.
pub proof fn law_events_keep_windows_sound(ws: Seq<WindowInfo>, event: Event)
    requires
        sound(ws),
        !(event is WindowsChanged),
    ensures
        sound(windows_after(ws, event)),
{
    match event {
        Event::WindowOpenedOrChanged { window } => {
            lemma_window_from(ws, window.id, 0);
            let next = windows_with(ws, window);
            assert forall|i: int, j: int| 0 <= i < j < next.len() implies (#[trigger] next[i]).id != (
            #[trigger] next[j]).id by {
                if j < ws.len() {
                    assert(ws[i].id != ws[j].id);
                }
            }
            assert forall|i: int, j: int| 0 <= i < j < next.len() implies !((#[trigger] next[i]).is_focused
                && (#[trigger] next[j]).is_focused) by {
                if j < ws.len() {
                    assert(!(ws[i].is_focused && ws[j].is_focused));
                    assert(ws[i].id != ws[j].id);
                }
            }
        },
        Event::WindowClosed { id } => {
            lemma_without(ws, id);
        },
        Event::WindowFocusChanged { id } => {
            let next = windows_refocused(ws, id);
            assert forall|i: int, j: int| 0 <= i < j < next.len() implies (#[trigger] next[i]).id != (
            #[trigger] next[j]).id && !(next[i].is_focused && next[j].is_focused) by {
                assert(ws[i].id != ws[j].id);
            }
        },
        Event::WindowLayoutsChanged { changes } => {
            lemma_laid_out(ws, changes@);
            let next = windows_laid_out(ws, changes@);
            assert forall|i: int, j: int| 0 <= i < j < next.len() implies (#[trigger] next[i]).id != (
            #[trigger] next[j]).id && !(next[i].is_focused && next[j].is_focused) by {
                assert(ws[i].id != ws[j].id);
                assert(!(ws[i].is_focused && ws[j].is_focused));
            }
        },
        _ => {},
    }
}

/// After a window was closed, no window has its id, and every other one is as it
/// was.
pub proof fn law_closed_window_is_gone(ws: Seq<WindowInfo>, id: u64)
    ensures
        window_from(windows_after(ws, Event::WindowClosed { id }), id, 0) is None,
        forall|w: WindowInfo|
            w.id != id && #[trigger] ws.contains(w) ==> windows_after(
                ws,
                Event::WindowClosed { id },
            ).contains(w),
{
    lemma_without(ws, id);
    lemma_window_from(windows_without(ws, id), id, 0);
    let keep = |w: WindowInfo| w.id != id;
    assert forall|w: WindowInfo| w.id != id && #[trigger] ws.contains(w) implies windows_without(
        ws,
        id,
    ).contains(w) by {
        let i = choose|i: int| 0 <= i < ws.len() && ws[i] == w;
        ws.lemma_filter_contains(keep, i);
    }
}

/// A window that was opened or changed is what the state then holds under its id.
pub proof fn law_changed_window_is_stored(ws: Seq<WindowInfo>, window: WindowInfo)
    ensures
        ({
            let next = windows_after(ws, Event::WindowOpenedOrChanged { window });
            window_from(next, window.id, 0) matches Some(i) && next[i] == window
        }),
{
    let next = windows_with(ws, window);
    lemma_window_from(ws, window.id, 0);
    lemma_window_from(next, window.id, 0);
    match window_from(ws, window.id, 0) {
        Some(i) => {
            assert(next[i] == window);
            let k = window_from(next, window.id, 0)->0;
            if k < i {
                assert(ws[k].id != window.id);
            }
        },
        None => {
            assert(next[ws.len() as int] == window);
            let k = window_from(next, window.id, 0)->0;
            if k < ws.len() {
                assert(ws[k].id != window.id);
            }
        },
    }
}

/// After a workspace was made active, no other workspace on its output is active;
/// where it was focused too, no other workspace anywhere has the focus.
pub proof fn law_activation_is_exclusive(wss: Seq<WorkspaceInfo>, id: u64, focused: bool, i: int)
    requires
        output_of(wss, id) is Some,
        0 <= i < wss.len(),
        wss[i].id != id,
    ensures
        text::opt(wss[i].output) == Some(output_of(wss, id)->0@) ==> !workspaces_activated(
            wss,
            id,
            focused,
        )[i].is_active,
        focused ==> !workspaces_activated(wss, id, focused)[i].is_focused,
{
}

/// After the focus went to a window whose workspace is known, that workspace is
/// active, and it alone has the focus.
pub proof fn law_focus_goes_to_the_workspace(
    wss: Seq<WorkspaceInfo>,
    ws: Seq<WindowInfo>,
    id: Option<u64>,
    i: int,
)
    requires
        focus_workspace(ws, id) is Some,
        0 <= i < wss.len(),
    ensures
        ({
            let after = workspaces_after(wss, ws, Event::WindowFocusChanged { id }, None)[i];
            &&& after.is_focused == (wss[i].id == focus_workspace(ws, id)->0)
            &&& after.is_focused ==> after.is_active
        }),
{
}

// ---------------------------------------------------------------------------
// What an event leaves as it was, and what it makes of the rest
// ---------------------------------------------------------------------------

/// A window that is opened or changed without the focus leaves every other window exactly
/// as it was, its focus and its place in the list.
pub proof fn law_unfocused_window_leaves_the_others(ws: Seq<WindowInfo>, window: WindowInfo, j: int)
    requires
        !window.is_focused,
        0 <= j < ws.len(),
        ws[j].id != window.id,
    ensures
        windows_after(ws, Event::WindowOpenedOrChanged { window })[j] == ws[j],
{
    lemma_window_from(ws, window.id, 0);
}

/// A window that is opened or changed with the focus takes it from every other window, and
/// leaves all else of them as it was.
pub proof fn law_focused_window_takes_the_focus(ws: Seq<WindowInfo>, window: WindowInfo, j: int)
    requires
        window.is_focused,
        0 <= j < ws.len(),
        ws[j].id != window.id,
    ensures
        windows_after(ws, Event::WindowOpenedOrChanged { window })[j] == (WindowInfo { is_focused: false, ..ws[j] }),
{
    lemma_window_from(ws, window.id, 0);
}

/// A window that is changed stands where the first with its id stood; a window that is
/// opened stands last. No window goes.
pub proof fn law_changed_window_keeps_its_place(ws: Seq<WindowInfo>, window: WindowInfo, i: int)
    requires
        0 <= i <= ws.len(),
        forall|j: int| 0 <= j < i ==> (#[trigger] ws[j]).id != window.id,
        i < ws.len() ==> ws[i].id == window.id,
    ensures
        ({
            let next = windows_after(ws, Event::WindowOpenedOrChanged { window });
            &&& next[i] == window
            &&& next.len() == (if i < ws.len() {
                ws.len()
            } else {
                ws.len() + 1
            })
        }),
{
    lemma_window_from(ws, window.id, 0);
    if let Some(k) = window_from(ws, window.id, 0) {
        if k < i {
            assert(ws[k].id != window.id);
        } else if i < k {
            assert(ws[i].id != window.id);
        }
    }
}

/// A closed window goes, and the others stand as they were, in their order.
pub proof fn law_others_outlive_a_closed_window(ws: Seq<WindowInfo>, id: u64)
    ensures
        windows_after(ws, Event::WindowClosed { id }) == ws.filter(|w: WindowInfo| w.id != id),
        windows_after(ws, Event::WindowClosed { id }).len() <= ws.len(),
{
    let keep = |w: WindowInfo| w.id != id;
    ws.lemma_filter_len(keep);
    assert(windows_without(ws, id) == ws.filter(keep));
}

/// When the focus goes to a window, exactly the window with that id has it, and nothing
/// else of any window changes. When it goes to none, none has it.
pub proof fn law_focus_is_where_it_went(ws: Seq<WindowInfo>, id: Option<u64>, j: int)
    requires
        0 <= j < ws.len(),
    ensures
        windows_after(ws, Event::WindowFocusChanged { id }).len() == ws.len(),
        windows_after(ws, Event::WindowFocusChanged { id })[j] == (WindowInfo {
            is_focused: id matches Some(f) && ws[j].id == f,
            ..ws[j]
        }),
{
}

/// A workspace that is made active is active, and keeps its id and output; it has the
/// focus where it was given to it, and what it had otherwise.
pub proof fn law_activated_workspace_is_active(wss: Seq<WorkspaceInfo>, ws: Seq<WindowInfo>, id: u64, focused: bool, i: int)
    requires
        0 <= i < wss.len(),
        wss[i].id == id,
    ensures
        ({
            let after = workspaces_after(wss, ws, Event::WorkspaceActivated { id, focused }, None);
            &&& after.len() == wss.len()
            &&& after[i] == (WorkspaceInfo {
                is_active: true,
                is_focused: wss[i].is_focused || focused,
                ..wss[i]
            })
        }),
{
}

proof fn lemma_output_of(wss: Seq<WorkspaceInfo>, id: u64, k: int)
    requires
        0 <= k < wss.len(),
        wss[k].id == id,
        forall|j: int| k < j < wss.len() ==> (#[trigger] wss[j]).id != id,
    ensures
        output_of(wss, id) == wss[k].output,
    decreases wss.len(),
{
    if k < wss.len() - 1 {
        assert(wss[wss.len() - 1].id != id);
        let front = wss.drop_last();
        assert(front[k] == wss[k]);
        assert forall|j: int| k < j < front.len() implies (#[trigger] front[j]).id != id by {
            assert(wss[j].id != id);
        }
        lemma_output_of(front, id, k);
    }
}

/// A workspace that is made active on an output: every other one there is not, one on
/// another output stays as active as it was, and where the focus came along, no other has
/// it, else all keep it as it was.
pub proof fn law_activation_stays_on_its_output(
    wss: Seq<WorkspaceInfo>,
    ws: Seq<WindowInfo>,
    id: u64,
    focused: bool,
    k: int,
    j: int,
)
    requires
        0 <= k < wss.len(),
        wss[k].id == id,
        wss[k].output is Some,
        forall|i: int| k < i < wss.len() ==> (#[trigger] wss[i]).id != id,
        0 <= j < wss.len(),
        wss[j].id != id,
    ensures
        workspaces_after(wss, ws, Event::WorkspaceActivated { id, focused }, None)[j] == (WorkspaceInfo {
            is_active: wss[j].is_active && !(wss[j].output is Some && wss[j].output->0@ == wss[k].output->0@),
            is_focused: wss[j].is_focused && !focused,
            ..wss[j]
        }),
{
    lemma_output_of(wss, id, k);
}

/// The activation of a workspace that is not known, or that stands on no output, leaves
/// every other workspace as it was.
pub proof fn law_homeless_activation_leaves_the_others(
    wss: Seq<WorkspaceInfo>,
    ws: Seq<WindowInfo>,
    id: u64,
    focused: bool,
    j: int,
)
    requires
        forall|i: int| 0 <= i < wss.len() && (#[trigger] wss[i]).id == id ==> wss[i].output is None,
        0 <= j < wss.len(),
        wss[j].id != id,
    ensures
        workspaces_after(wss, ws, Event::WorkspaceActivated { id, focused }, None)[j] == wss[j],
{
    lemma_output_of_homeless(wss, id);
}

proof fn lemma_output_of_homeless(wss: Seq<WorkspaceInfo>, id: u64)
    requires
        forall|i: int| 0 <= i < wss.len() && (#[trigger] wss[i]).id == id ==> wss[i].output is None,
    ensures
        output_of(wss, id) is None,
    decreases wss.len(),
{
    if wss.len() > 0 {
        let front = wss.drop_last();
        assert(wss.last() == wss[wss.len() - 1]);
        assert forall|i: int| 0 <= i < front.len() && (#[trigger] front[i]).id == id implies front[i].output is None by {
            assert(wss[i] == front[i]);
        }
        lemma_output_of_homeless(front, id);
    }
}

/// When the focus goes to a window, the workspace of the first window with that id gets
/// the focus and becomes active; every other workspace loses the focus and stays as active
/// as it was. Where no such window or workspace is known, all workspaces stay as they are.
pub proof fn law_workspace_follows_the_focus(
    wss: Seq<WorkspaceInfo>,
    ws: Seq<WindowInfo>,
    id: Option<u64>,
    k: int,
    j: int,
)
    requires
        0 <= j < wss.len(),
        0 <= k <= ws.len(),
        id is None ==> k == ws.len(),
        forall|i: int| 0 <= i < k ==> Some((#[trigger] ws[i]).id) != id,
        k < ws.len() ==> Some(ws[k].id) == id,
    ensures
        workspaces_after(wss, ws, Event::WindowFocusChanged { id }, None)[j] == (if k < ws.len()
            && ws[k].workspace_id is Some {
            WorkspaceInfo {
                is_focused: wss[j].id == ws[k].workspace_id->0,
                is_active: wss[j].is_active || wss[j].id == ws[k].workspace_id->0,
                ..wss[j]
            }
        } else {
            wss[j]
        }),
{
    if let Some(win) = id {
        lemma_window_from(ws, win, 0);
        if let Some(f) = window_from(ws, win, 0) {
            if f < k {
                assert(Some(ws[f].id) != id);
            } else if k < f {
                assert(ws[k].id != win);
            }
        }
    }
}

/// What the compositor lists anew is what is known from then on; events about windows
/// leave the workspaces and outputs, and events about workspaces the windows, as they were.
pub proof fn law_events_change_what_they_tell_of(
    ws: Seq<WindowInfo>,
    wss: Seq<WorkspaceInfo>,
    outs: NameMap<OutputInfo>,
    event: Event,
    fetched: Refetched,
)
    ensures
        event matches Event::WindowsChanged { windows } ==> windows_after(ws, event) == windows@,
        event matches Event::WorkspacesChanged { workspaces } ==> workspaces_after(wss, ws, event, fetched.workspaces)
            == workspaces@,
        event is WorkspacesChanged || event is WorkspaceActivated || event is OutputsChanged || event is Other
            || event is WorkspaceActiveWindowChanged ==> windows_after(ws, event) == ws,
        event is WindowsChanged || event is WindowOpenedOrChanged || event is WindowClosed
            || event is WindowLayoutsChanged || event is WorkspaceActiveWindowChanged || event is Other
            ==> workspaces_after(wss, ws, event, fetched.workspaces) == wss,
        !(event is OutputsChanged) ==> outputs_after(outs, event, fetched.outputs) == outs,
{
}

/// When outputs change, those that the event lists are the outputs from then on; where it
/// lists none, those that were fetched are, and where nothing was fetched, all stay as they
/// were. The workspaces are those that were fetched.
pub proof fn law_outputs_are_those_reported(
    wss: Seq<WorkspaceInfo>,
    ws: Seq<WindowInfo>,
    outs: NameMap<OutputInfo>,
    listed: Option<NameMap<OutputInfo>>,
    fetched: Refetched,
)
    ensures
        outputs_after(outs, Event::OutputsChanged { outputs: listed }, fetched.outputs) == (if listed is Some
            && listed->0.entries().len() > 0 {
            listed->0
        } else if fetched.outputs is Some {
            fetched.outputs->0
        } else {
            outs
        }),
        workspaces_after(wss, ws, Event::OutputsChanged { outputs: listed }, fetched.workspaces) == (
        if fetched.workspaces is Some {
            fetched.workspaces->0@
        } else {
            wss
        }),
{
}

/// Layout changes change nothing but layouts: the window takes the last layout that is
/// listed for it, and a window that is not listed keeps its own.
pub proof fn law_layouts_are_the_last_reported(ws: Seq<WindowInfo>, changes: Vec<(u64, WindowLayout)>, i: int, c: int)
    requires
        0 <= i < ws.len(),
        forall|j: int| 0 <= j < i ==> (#[trigger] ws[j]).id != ws[i].id,
        0 <= c <= changes@.len(),
        c < changes@.len() ==> changes@[c].0 == ws[i].id,
        forall|k: int| 0 <= k < changes@.len() && (#[trigger] changes@[k]).0 == ws[i].id ==> c < changes@.len() && k <= c,
    ensures
        windows_after(ws, Event::WindowLayoutsChanged { changes }).len() == ws.len(),
        windows_after(ws, Event::WindowLayoutsChanged { changes })[i] == (WindowInfo {
            layout: if c < changes@.len() {
                Some(changes@[c].1)
            } else {
                ws[i].layout
            },
            ..ws[i]
        }),
{
    lemma_layout_of(ws, changes@, i, c);
}

proof fn lemma_layout_of(ws: Seq<WindowInfo>, changes: Seq<(u64, WindowLayout)>, i: int, c: int)
    requires
        0 <= i < ws.len(),
        forall|j: int| 0 <= j < i ==> (#[trigger] ws[j]).id != ws[i].id,
        0 <= c <= changes.len(),
        c < changes.len() ==> changes[c].0 == ws[i].id,
        forall|k: int| 0 <= k < changes.len() && (#[trigger] changes[k]).0 == ws[i].id ==> c < changes.len() && k <= c,
    ensures
        windows_laid_out(ws, changes).len() == ws.len(),
        windows_laid_out(ws, changes)[i] == (WindowInfo {
            layout: if c < changes.len() {
                Some(changes[c].1)
            } else {
                ws[i].layout
            },
            ..ws[i]
        }),
    decreases changes.len(),
{
    if changes.len() > 0 {
        let n = changes.len() - 1;
        let front = changes.drop_last();
        let before = windows_laid_out(ws, front);
        lemma_laid_out(ws, front);
        lemma_window_from(before, changes[n].0, 0);
        if changes[n].0 == ws[i].id {
            assert(c == n);
            lemma_kept_but_layout(ws, front, i);
            if let Some(k) = window_from(before, changes[n].0, 0) {
                if k < i {
                    assert(before[k].id == ws[k].id);
                    assert(ws[k].id != ws[i].id);
                }
            }
            assert(before[i].id == ws[i].id);
        } else {
            let d = if c < changes.len() {
                c
            } else {
                n
            };
            assert(c < changes.len() ==> c < n);
            assert forall|k: int| 0 <= k < front.len() && (#[trigger] front[k]).0 == ws[i].id implies d < front.len()
                && k <= d by {
                assert(changes[k].0 == ws[i].id);
            }
            lemma_layout_of(ws, front, i, d);
            assert(before[i].id == ws[i].id);
        }
    }
}

proof fn lemma_kept_but_layout(ws: Seq<WindowInfo>, changes: Seq<(u64, WindowLayout)>, i: int)
    requires
        0 <= i < ws.len(),
    ensures
        windows_laid_out(ws, changes).len() == ws.len(),
        windows_laid_out(ws, changes)[i] == (WindowInfo { layout: windows_laid_out(ws, changes)[i].layout, ..ws[i] }),
    decreases changes.len(),
{
    if changes.len() > 0 {
        lemma_kept_but_layout(ws, changes.drop_last(), i);
        lemma_window_from(windows_laid_out(ws, changes.drop_last()), changes.last().0, 0);
    }
}

/// A drag ends when its own window is closed, and by no other event.
pub proof fn law_drag_ends_with_its_window(d: GlobalDragState, event: Event)
    ensures
        drag_after(Some(d), event) == (if event matches Event::WindowClosed { id } && id == d.window_id {
            None
        } else {
            Some(d)
        }),
        drag_after(None, event) is None,
{
}

} // verus!
