//! Which windows a bar shows, in which order, and how their buttons look.
use vstd::prelude::*;

use crate::config::TaskbarConfig;
use crate::names::NameMap;
use crate::niri::drag;
use crate::niri::drag::GlobalDragState;
use crate::niri::model::{OutputInfo, WindowInfo, WorkspaceInfo};
use crate::niri::state;
use crate::text;

verus! {

/// The last focused workspace on the output.
pub open spec fn last_focused(wss: Seq<WorkspaceInfo>, out: Seq<char>) -> Option<u64>
    decreases wss.len(),
{
    if wss.len() == 0 {
        None
    } else if wss.last().is_focused && text::opt(wss.last().output) == Some(out) {
        Some(wss.last().id)
    } else {
        last_focused(wss.drop_last(), out)
    }
}

/// The first workspace on the output, of the active ones only or of all.
pub open spec fn first_on(wss: Seq<WorkspaceInfo>, out: Seq<char>, active_only: bool) -> Option<u64>
    decreases wss.len(),
{
    if wss.len() == 0 {
        None
    } else if first_on(wss.drop_last(), out, active_only) is Some {
        first_on(wss.drop_last(), out, active_only)
    } else if text::opt(wss.last().output) == Some(out) && (active_only ==> wss.last().is_active) {
        Some(wss.last().id)
    } else {
        None
    }
}

/// The workspace that counts as the active one of an output: a focused one, else
/// an active one, else any.
pub open spec fn active_on(wss: Seq<WorkspaceInfo>, out: Seq<char>) -> Option<u64> {
    if last_focused(wss, out) is Some {
        last_focused(wss, out)
    } else if first_on(wss, out, true) is Some {
        first_on(wss, out, true)
    } else {
        first_on(wss, out, false)
    }
}

/// The active workspace of each output that has a workspace.
pub fn active_workspace_per_output(workspaces: &Vec<WorkspaceInfo>) -> (r: NameMap<u64>)
    ensures
        forall|o: Seq<char>| #[trigger]
            r@.dom().contains(o) == (active_on(workspaces@, o) is Some),
        forall|o: Seq<char>| #[trigger]
            r@.dom().contains(o) ==> Some(r@[o]) == active_on(workspaces@, o),
{
    let ghost all: Seq<WorkspaceInfo> = workspaces@;
    let mut r: NameMap<u64> = NameMap::new();
    let mut i: usize = 0;
    while i < workspaces.len()
        invariant
            all == workspaces@,
            i <= all.len(),
            forall|o: Seq<char>| #[trigger]
                r@.dom().contains(o) == (last_focused(all.take(i as int), o) is Some),
            forall|o: Seq<char>| #[trigger]
                r@.dom().contains(o) ==> Some(r@[o]) == last_focused(all.take(i as int), o),
        decreases all.len() - i,
    {
        assert(all.take(i + 1).drop_last() =~= all.take(i as int));
        if workspaces[i].is_focused {
            if let Some(out) = &workspaces[i].output {
                r.insert(out.clone(), workspaces[i].id);
            }
        }
        i = i + 1;
    }
    assert(all.take(all.len() as int) =~= all);
    let mut i: usize = 0;
    while i < workspaces.len()
        invariant
            all == workspaces@,
            i <= all.len(),
            forall|o: Seq<char>| #[trigger]
                r@.dom().contains(o) == (last_focused(all, o) is Some || first_on(
                    all.take(i as int),
                    o,
                    true,
                ) is Some),
            forall|o: Seq<char>| #[trigger]
                r@.dom().contains(o) ==> Some(r@[o]) == (if last_focused(all, o) is Some {
                    last_focused(all, o)
                } else {
                    first_on(all.take(i as int), o, true)
                }),
        decreases all.len() - i,
    {
        assert(all.take(i + 1).drop_last() =~= all.take(i as int));
        if workspaces[i].is_active {
            if let Some(out) = &workspaces[i].output {
                if !r.contains_key(out.as_str()) {
                    r.insert(out.clone(), workspaces[i].id);
                }
            }
        }
        i = i + 1;
    }
    let mut i: usize = 0;
    while i < workspaces.len()
        invariant
            all == workspaces@,
            i <= all.len(),
            forall|o: Seq<char>| #[trigger]
                r@.dom().contains(o) == (last_focused(all, o) is Some || first_on(all, o, true) is Some
                    || first_on(all.take(i as int), o, false) is Some),
            forall|o: Seq<char>| #[trigger]
                r@.dom().contains(o) ==> Some(r@[o]) == (if last_focused(all, o) is Some {
                    last_focused(all, o)
                } else if first_on(all, o, true) is Some {
                    first_on(all, o, true)
                } else {
                    first_on(all.take(i as int), o, false)
                }),
        decreases all.len() - i,
    {
        assert(all.take(i + 1).drop_last() =~= all.take(i as int));
        if let Some(out) = &workspaces[i].output {
            if !r.contains_key(out.as_str()) {
                r.insert(out.clone(), workspaces[i].id);
            }
        }
        i = i + 1;
    }
    r
}

/// A workspace on an output makes the output have an active one.
proof fn lemma_active_on(wss: Seq<WorkspaceInfo>, i: int, out: Seq<char>)
    requires
        0 <= i < wss.len(),
        text::opt(wss[i].output) == Some(out),
    ensures
        active_on(wss, out) is Some,
        first_on(wss, out, false) is Some,
    decreases wss.len(),
{
    if i < wss.len() - 1 {
        assert(wss.drop_last()[i] == wss[i]);
        lemma_active_on(wss.drop_last(), i, out);
    }
}

/// The column and tile of a window; those without a place come after all others.
pub open spec fn place(w: WindowInfo) -> (int, int) {
    match w.layout {
        Some(l) => match l.pos_in_scrolling_layout {
            Some(p) => (p.0 as int, p.1 as int),
            None => (usize::MAX as int, usize::MAX as int),
        },
        None => (usize::MAX as int, usize::MAX as int),
    }
}

/// The order of places: by column, then by tile.
pub open spec fn not_after(a: (int, int), b: (int, int)) -> bool {
    a.0 < b.0 || (a.0 == b.0 && a.1 <= b.1)
}

/// The windows stand in the order of their places.
pub open spec fn in_order(ws: Seq<WindowInfo>) -> bool {
    forall|i: int, j: int| 0 <= i < j < ws.len() ==> not_after(place(#[trigger] ws[i]), place(#[trigger] ws[j]))
}

/// The windows at one place, in the order in which they stand.
pub open spec fn windows_at(ws: Seq<WindowInfo>, p: (int, int)) -> Seq<WindowInfo> {
    ws.filter(|w: WindowInfo| place(w) == p)
}

/// `after` is `before` put in the order of places; windows at the same place keep
/// their order.
pub open spec fn sorted_from(before: Seq<WindowInfo>, after: Seq<WindowInfo>) -> bool {
    in_order(after) && forall|p: (int, int)| #[trigger] windows_at(after, p) == windows_at(before, p)
}

/// Sorting puts a window in behind those that are not after it.
proof fn lemma_insert_sorted(before: Seq<WindowInfo>, after: Seq<WindowInfo>, pos: int, w: WindowInfo)
    requires
        sorted_from(before, after),
        0 <= pos <= after.len(),
        pos > 0 ==> not_after(place(after[pos - 1]), place(w)),
        forall|i: int| pos <= i < after.len() ==> !not_after(place(#[trigger] after[i]), place(w)),
    ensures
        sorted_from(before.push(w), after.insert(pos, w)),
{
    let next = after.insert(pos, w);
    assert forall|i: int, j: int| 0 <= i < j < next.len() implies not_after(
        place(#[trigger] next[i]),
        place(#[trigger] next[j]),
    ) by {
        let a = if i < pos {
            i
        } else {
            i - 1
        };
        let b = if j < pos {
            j
        } else {
            j - 1
        };
        if i != pos && j != pos {
            assert(not_after(place(after[a]), place(after[b])));
        } else if j == pos {
            if i < pos - 1 {
                assert(not_after(place(after[i]), place(after[pos - 1])));
            }
        }
    }
    assert forall|p: (int, int)| #[trigger] windows_at(next, p) == windows_at(before.push(w), p) by {
        let at = |v: WindowInfo| place(v) == p;
        let front = after.take(pos);
        let back = after.skip(pos);
        assert(after =~= front + back);
        assert(next =~= (front + seq![w]) + back);
        Seq::filter_distributes_over_add(front, back, at);
        Seq::filter_distributes_over_add(front + seq![w], back, at);
        assert(front + seq![w] =~= front.push(w));
        front.lemma_filter_push(w, at);
        before.lemma_filter_push(w, at);
        assert(windows_at(after, p) == windows_at(before, p));
        if place(w) == p {
            assert forall|i: int| 0 <= i < back.len() implies !at(#[trigger] back[i]) by {
                assert(back[i] == after[pos + i]);
            }
            back.lemma_all_neg_filter_empty(at);
            assert(front.filter(at).push(w) + back.filter(at) =~= (front.filter(at) + back.filter(
                at,
            )).push(w));
        }
    }
}

fn place_of(w: &WindowInfo) -> (r: (usize, usize))
    ensures
        (r.0 as int, r.1 as int) == place(*w),
{
    match &w.layout {
        Some(l) => match l.pos_in_scrolling_layout {
            Some(p) => p,
            None => (usize::MAX, usize::MAX),
        },
        None => (usize::MAX, usize::MAX),
    }
}

/// Sorts windows by column, then by tile. Windows without a place come last, and
/// windows at the same place keep their order.
pub fn sort_windows_spatially(windows: &mut Vec<WindowInfo>)
    ensures
        sorted_from(old(windows)@, final(windows)@),
{
    let ghost before: Seq<WindowInfo> = windows@;
    let mut out: Vec<WindowInfo> = Vec::new();
    let mut k: usize = 0;
    assert(sorted_from(before.take(0), out@)) by {
        assert(before.take(0) =~= out@);
    }
    while k < windows.len()
        invariant
            windows@ == before,
            k <= before.len(),
            out@.len() == k,
            sorted_from(before.take(k as int), out@),
        decreases before.len() - k,
    {
        let w: WindowInfo = windows[k].copy();
        let key: (usize, usize) = place_of(&w);
        let mut pos: usize = out.len();
        while 0 < pos && !(place_of(&out[pos - 1]).0 < key.0 || (place_of(&out[pos - 1]).0 == key.0
            && place_of(&out[pos - 1]).1 <= key.1))
            invariant
                pos <= out@.len(),
                (key.0 as int, key.1 as int) == place(w),
                forall|i: int|
                    pos <= i < out@.len() ==> !not_after(place(#[trigger] out@[i]), place(w)),
            decreases pos,
        {
            pos = pos - 1;
        }
        proof {
            lemma_insert_sorted(before.take(k as int), out@, pos as int, w);
            assert(before.take(k as int).push(w) =~= before.take(k + 1));
        }
        out.insert(pos, w);
        k = k + 1;
    }
    assert(before.take(before.len() as int) =~= before);
    *windows = out;
}

/// The count of a window among all is its count among those at its place.
proof fn lemma_count_at(ws: Seq<WindowInfo>, x: WindowInfo)
    ensures
        ws.to_multiset().count(x) == windows_at(ws, place(x)).to_multiset().count(x),
    decreases ws.len(),
{
    broadcast use vstd::seq_lib::group_to_multiset_ensures;

    let at = |v: WindowInfo| place(v) == place(x);
    if ws.len() == 0 {
        assert(ws.filter(at) =~= ws) by {
            reveal(Seq::filter);
        }
    } else {
        let front = ws.drop_last();
        let w = ws.last();
        lemma_count_at(front, x);
        assert(ws =~= front.push(w));
        front.lemma_filter_push(w, at);
    }
}

/// Sorting loses no window and adds none.
pub proof fn law_sort_keeps_windows(before: Seq<WindowInfo>, after: Seq<WindowInfo>)
    requires
        sorted_from(before, after),
    ensures
        after.to_multiset() == before.to_multiset(),
{
    assert forall|x: WindowInfo| after.to_multiset().count(x) == before.to_multiset().count(x) by {
        lemma_count_at(after, x);
        lemma_count_at(before, x);
        assert(windows_at(after, place(x)) == windows_at(before, place(x)));
    }
    assert(after.to_multiset() =~= before.to_multiset());
}

/// The windows at a place, after one more was put behind all.
proof fn lemma_at_push(ws: Seq<WindowInfo>, p: (int, int))
    requires
        ws.len() > 0,
    ensures
        windows_at(ws, p) == (if place(ws.last()) == p {
            windows_at(ws.drop_last(), p).push(ws.last())
        } else {
            windows_at(ws.drop_last(), p)
        }),
{
    let at = |w: WindowInfo| place(w) == p;
    assert(ws =~= ws.drop_last().push(ws.last()));
    ws.drop_last().lemma_filter_push(ws.last(), at);
}

/// A window at a place stands among the windows.
proof fn lemma_at_member(ws: Seq<WindowInfo>, p: (int, int))
    ensures
        windows_at(ws, p).len() > 0 ==> exists|i: int| 0 <= i < ws.len() && place(#[trigger] ws[i]) == p,
    decreases ws.len(),
{
    if ws.len() == 0 {
        reveal(Seq::filter);
        assert(windows_at(ws, p) =~= ws);
    } else {
        lemma_at_push(ws, p);
        lemma_at_member(ws.drop_last(), p);
        if place(ws.last()) == p {
            assert(place(ws[ws.len() - 1]) == p);
        } else if windows_at(ws, p).len() > 0 {
            let i = choose|i: int|
                0 <= i < ws.drop_last().len() && place(#[trigger] ws.drop_last()[i]) == p;
            assert(place(ws[i]) == p);
        }
    }
}

/// The last of the windows in one order is not after the last in another.
proof fn lemma_last_not_after(a: Seq<WindowInfo>, b: Seq<WindowInfo>)
    requires
        in_order(b),
        a.len() > 0,
        forall|p: (int, int)| #[trigger] windows_at(a, p) == windows_at(b, p),
    ensures
        b.len() > 0,
        not_after(place(a.last()), place(b.last())),
{
    let p = place(a.last());
    lemma_at_push(a, p);
    assert(windows_at(a, p) == windows_at(b, p));
    lemma_at_member(b, p);
    let i = choose|i: int| 0 <= i < b.len() && place(#[trigger] b[i]) == p;
    if i < b.len() - 1 {
        assert(not_after(place(b[i]), place(b[b.len() - 1])));
    }
}

/// The windows have one order: however they are sorted, the result is the same.
pub proof fn law_order_is_unique(before: Seq<WindowInfo>, a: Seq<WindowInfo>, b: Seq<WindowInfo>)
    requires
        sorted_from(before, a),
        sorted_from(before, b),
    ensures
        a == b,
{
    assert forall|p: (int, int)| #[trigger] windows_at(a, p) == windows_at(b, p) by {
        assert(windows_at(a, p) == windows_at(before, p));
        assert(windows_at(b, p) == windows_at(before, p));
    }
    lemma_order_is_unique(a, b);
}

proof fn lemma_order_is_unique(a: Seq<WindowInfo>, b: Seq<WindowInfo>)
    requires
        in_order(a),
        in_order(b),
        forall|p: (int, int)| #[trigger] windows_at(a, p) == windows_at(b, p),
    ensures
        a == b,
    decreases a.len(),
{
    if a.len() == 0 {
        if b.len() > 0 {
            lemma_last_not_after(b, a);
        }
        assert(a =~= b);
    } else {
        lemma_last_not_after(a, b);
        lemma_last_not_after(b, a);
        let p = place(a.last());
        lemma_at_push(a, p);
        lemma_at_push(b, p);
        assert(windows_at(a, p).last() == a.last());
        assert(windows_at(b, p).last() == b.last());
        let c = a.drop_last();
        let d = b.drop_last();
        assert forall|q: (int, int)| #[trigger] windows_at(c, q) == windows_at(d, q) by {
            lemma_at_push(a, q);
            lemma_at_push(b, q);
            assert(windows_at(a, q) == windows_at(b, q));
            if q == p {
                assert(windows_at(c, q) =~= windows_at(a, q).drop_last());
                assert(windows_at(d, q) =~= windows_at(b, q).drop_last());
            }
        }
        lemma_order_is_unique(c, d);
        assert(a =~= c.push(a.last()));
        assert(b =~= d.push(b.last()));
    }
}

/// The position of the first workspace with the id, from `i` on.
pub open spec fn workspace_from(wss: Seq<WorkspaceInfo>, id: u64, i: int) -> Option<int>
    decreases wss.len() - i,
{
    if i < 0 || i >= wss.len() {
        None
    } else if wss[i].id == id {
        Some(i)
    } else {
        workspace_from(wss, id, i + 1)
    }
}

/// The output on which a window stands.
pub open spec fn window_output(w: WindowInfo, wss: Seq<WorkspaceInfo>) -> Option<Seq<char>> {
    match w.workspace_id {
        Some(id) => match workspace_from(wss, id, 0) {
            Some(i) => text::opt(wss[i].output),
            None => None,
        },
        None => None,
    }
}

/// The windows that the bar of an output shows: those on the output, and where it
/// is so configured, those on its active workspace. A bar whose output is not
/// known shows none.
pub open spec fn shown(
    wss: Seq<WorkspaceInfo>,
    current_output: Option<String>,
    only_current_workspace: bool,
) -> spec_fn(WindowInfo) -> bool {
    |w: WindowInfo|
        current_output is Some && window_output(w, wss) == text::opt(current_output) && (
        only_current_workspace ==> w.workspace_id == active_on(wss, current_output->0@))
}

fn find_workspace(wss: &Vec<WorkspaceInfo>, id: u64) -> (r: Option<usize>)
    ensures
        match r {
            Some(k) => workspace_from(wss@, id, 0) == Some(k as int) && k < wss@.len() && wss@[k as int].id
                == id,
            None => workspace_from(wss@, id, 0) is None,
        },
{
    let mut i: usize = 0;
    while i < wss.len()
        invariant
            i <= wss@.len(),
            workspace_from(wss@, id, i as int) == workspace_from(wss@, id, 0),
        decreases wss@.len() - i,
    {
        if wss[i].id == id {
            return Some(i);
        }
        i = i + 1;
    }
    None
}

fn is_shown(
    w: &WindowInfo,
    wss: &Vec<WorkspaceInfo>,
    current_output: &Option<String>,
    only_current_workspace: bool,
    active: &NameMap<u64>,
) -> (r: bool)
    requires
        forall|o: Seq<char>| #[trigger] active@.dom().contains(o) == (active_on(wss@, o) is Some),
        forall|o: Seq<char>| #[trigger]
            active@.dom().contains(o) ==> Some(active@[o]) == active_on(wss@, o),
    ensures
        r == shown(wss@, *current_output, only_current_workspace)(*w),
{
    let id: u64 = match w.workspace_id {
        Some(id) => id,
        None => return false,
    };
    let at: usize = match find_workspace(wss, id) {
        Some(i) => i,
        None => return false,
    };
    match (&wss[at].output, current_output) {
        (Some(o), Some(bar)) => {
            if !text::same(o.as_str(), bar.as_str()) {
                return false;
            }
            proof {
                lemma_active_on(wss@, at as int, o@);
            }
            if only_current_workspace {
                match active.get(o.as_str()) {
                    Some(active_id) => id == *active_id,
                    None => false,
                }
            } else {
                true
            }
        },
        _ => false,
    }
}

/// The windows that the bar of an output shows, in the order of their places.
pub fn filter_windows_for_output(
    windows: &Vec<WindowInfo>,
    workspaces: &Vec<WorkspaceInfo>,
    current_output: &Option<String>,
    only_current_workspace: bool,
) -> (r: Vec<WindowInfo>)
    ensures
        sorted_from(
            windows@.filter(shown(workspaces@, *current_output, only_current_workspace)),
            r@,
        ),
{
    let active: NameMap<u64> = active_workspace_per_output(workspaces);
    let ghost keep = shown(workspaces@, *current_output, only_current_workspace);
    let mut r: Vec<WindowInfo> = Vec::new();
    let mut i: usize = 0;
    assert(windows@.take(0) =~= Seq::empty());
    assert(r@ =~= windows@.take(0).filter(keep)) by {
        reveal(Seq::filter);
    }
    while i < windows.len()
        invariant
            i <= windows@.len(),
            keep == shown(workspaces@, *current_output, only_current_workspace),
            forall|o: Seq<char>| #[trigger]
                active@.dom().contains(o) == (active_on(workspaces@, o) is Some),
            forall|o: Seq<char>| #[trigger]
                active@.dom().contains(o) ==> Some(active@[o]) == active_on(workspaces@, o),
            r@ == windows@.take(i as int).filter(keep),
        decreases windows@.len() - i,
    {
        proof {
            reveal(Seq::filter);
            assert(windows@.take(i + 1).drop_last() =~= windows@.take(i as int));
        }
        if is_shown(&windows[i], workspaces, current_output, only_current_workspace, &active) {
            r.push(windows[i].copy());
        }
        i = i + 1;
    }
    assert(windows@.take(windows@.len() as int) =~= windows@);
    sort_windows_spatially(&mut r);
    r
}

/// A bar whose output is not known shows no window.
pub proof fn law_unknown_output_shows_nothing(
    windows: Seq<WindowInfo>,
    wss: Seq<WorkspaceInfo>,
    only_current_workspace: bool,
    r: Seq<WindowInfo>,
)
    requires
        sorted_from(windows.filter(shown(wss, None, only_current_workspace)), r),
    ensures
        r.len() == 0,
{
    let keep = shown(wss, None, only_current_workspace);
    windows.lemma_all_neg_filter_empty(keep);
    law_sort_keeps_windows(windows.filter(keep), r);
    broadcast use vstd::seq_lib::group_to_multiset_ensures;

    assert(r.to_multiset().len() == r.len());
    assert(windows.filter(keep).to_multiset().len() == 0);
}

/// A window is shown on no two outputs.
pub proof fn law_window_on_one_output(
    w: WindowInfo,
    wss: Seq<WorkspaceInfo>,
    a: String,
    b: String,
    only_current_workspace: bool,
)
    requires
        shown(wss, Some(a), only_current_workspace)(w),
        shown(wss, Some(b), only_current_workspace)(w),
    ensures
        a@ == b@,
{
}

/// What a bar shows for one window.
#[derive(Debug, Clone)]
pub struct WindowWidget {
    pub id: u64,
    pub icon_key: String,
    pub icon_scale: i32,
    pub is_focused: bool,
    pub tooltip: String,
}

/// What a `WindowWidget` says.
pub ghost struct WidgetModel {
    pub id: u64,
    pub icon: Seq<char>,
    pub scale: i32,
    pub focused: bool,
    pub tooltip: Seq<char>,
}

impl WindowWidget {
    /// What this widget says.
    pub open spec fn model(self) -> WidgetModel {
        WidgetModel {
            id: self.id,
            icon: self.icon_key@,
            scale: self.icon_scale,
            focused: self.is_focused,
            tooltip: self.tooltip@,
        }
    }
}

/// What widgets say.
pub open spec fn models(ws: Seq<WindowWidget>) -> Seq<WidgetModel> {
    ws.map_values(|w: WindowWidget| w.model())
}

/// How a button looks while something is dragged.
#[derive(Debug, Clone, Copy, PartialEq, Eq, Structural)]
pub enum DragLook {
    /// It is not dragged.
    Plain,
    /// It stands for a window that is dragged here from another output.
    Preview,
    /// It is dragged along its own bar.
    Held,
    /// It is dragged away to another output.
    Away,
}

/// What is to be done for one button.
#[derive(Debug, Clone)]
pub struct ButtonPlan {
    pub id: u64,
    /// Where it stands in the taskbar.
    pub index: usize,
    /// It has to be made first.
    pub is_new: bool,
    pub icon_key: String,
    pub title: String,
    pub is_focused: bool,
    /// The mark of the focus has to be put on or taken off.
    pub set_focus: bool,
    pub look: DragLook,
    pub set_tooltip: bool,
    pub set_icon: bool,
    /// It has to be moved to its index.
    pub reorder: bool,
}

/// What is to be done for the taskbar of one bar.
#[derive(Debug)]
pub struct TaskbarPlan {
    pub visible: bool,
    /// The windows whose buttons go.
    pub removed: Vec<u64>,
    pub buttons: Vec<ButtonPlan>,
}

/// Where the taskbar stands on its output, and what it holds.
#[derive(Debug)]
pub struct TaskbarGeometry {
    pub vertical: bool,
    /// The taskbar's corner on the bar's surface.
    pub offset: (i32, i32),
    /// The buttons, but for one that stands for a window dragged here.
    pub children: Vec<drag::ChildBounds>,
    pub scale_factor: i32,
}

/// The name by which a window's icon is looked up.
pub open spec fn icon_text(w: WindowInfo) -> Seq<char> {
    match w.app_id {
        Some(a) => a@,
        None => "application-x-executable"@,
    }
}

/// The title that a window's button shows.
pub open spec fn title_text(w: WindowInfo) -> Seq<char> {
    match w.title {
        Some(t) => t@,
        None => icon_text(w),
    }
}

/// The window is being held on the bar of this output.
pub open spec fn held_here(dragged: Option<GlobalDragState>, id: u64, output: Option<String>) -> bool {
    dragged matches Some(d) && d.window_id == id && text::opt(d.source_output) == text::opt(output)
}

/// How the button of a window looks.
pub open spec fn look_of(
    is_new: bool,
    id: u64,
    preview_id: Option<u64>,
    dragged: Option<GlobalDragState>,
    output: Option<String>,
) -> DragLook {
    if preview_id == Some(id) {
        DragLook::Preview
    } else if is_new || !held_here(dragged, id, output) || !dragged->0.is_dragging {
        DragLook::Plain
    } else if dragged->0.target_output is Some {
        DragLook::Away
    } else {
        DragLook::Held
    }
}

/// The marks of a button that change with how it looks. A mark is put on where
/// `Some(true)` stands, taken off where `Some(false)` stands, and left otherwise.
#[derive(Debug, Clone, Copy, PartialEq, Eq, Structural)]
pub struct LookClasses {
    /// It is dragged.
    pub is_dragging: Option<bool>,
    /// It is dragged away to another output.
    pub drag_source_away: Option<bool>,
    /// It holds the place where the window will be.
    pub drag_placeholder: Option<bool>,
    /// Its window comes from another output.
    pub cross_monitor_preview: Option<bool>,
    /// It is seen.
    pub opaque: Option<bool>,
}

/// What changes on a button that is to look like this.
pub fn look_classes(look: DragLook, is_new: bool) -> (r: LookClasses)
    ensures
        r.cross_monitor_preview == (if is_new && look != DragLook::Preview {
            None
        } else {
            Some(look == DragLook::Preview)
        }),
        r.is_dragging == (if is_new {
            None
        } else {
            Some(look == DragLook::Held || look == DragLook::Away)
        }),
        r.drag_source_away == (if is_new || look == DragLook::Preview {
            None
        } else {
            Some(look == DragLook::Away)
        }),
        r.drag_placeholder == (if is_new && look != DragLook::Preview {
            None
        } else {
            Some(look == DragLook::Preview || look == DragLook::Held)
        }),
        r.opaque == (if is_new || look == DragLook::Preview {
            None
        } else {
            Some(look != DragLook::Away)
        }),
{
    let preview: bool = look == DragLook::Preview;
    let away: bool = look == DragLook::Away;
    let held: bool = look == DragLook::Held;
    LookClasses {
        is_dragging: if is_new {
            None
        } else {
            Some(held || away)
        },
        drag_source_away: if is_new || preview {
            None
        } else {
            Some(away)
        },
        drag_placeholder: if is_new && !preview {
            None
        } else {
            Some(preview || held)
        },
        cross_monitor_preview: if is_new && !preview {
            None
        } else {
            Some(preview)
        },
        opaque: if is_new || preview {
            None
        } else {
            Some(!away)
        },
    }
}

/// The side of a window's button.
pub fn button_size(icon_size: i32) -> (r: i32)
    requires
        icon_size <= i32::MAX - 16,
    ensures
        r == (if icon_size + 16 > 36 {
            icon_size + 16
        } else {
            36
        }),
{
    if icon_size > 20 {
        icon_size + 16
    } else {
        36
    }
}

/// The first widget of a window.
pub open spec fn widget_from(ws: Seq<WidgetModel>, id: u64, i: int) -> Option<int>
    decreases ws.len() - i,
{
    if i < 0 || i >= ws.len() {
        None
    } else if ws[i].id == id {
        Some(i)
    } else {
        widget_from(ws, id, i + 1)
    }
}

/// What a widget says after it was made or brought up to date for a window.
pub open spec fn refreshed(
    widget: Option<WidgetModel>,
    w: WindowInfo,
    show_tooltips: bool,
    scale: i32,
) -> WidgetModel {
    WidgetModel {
        id: w.id,
        icon: icon_text(w),
        scale,
        focused: w.is_focused,
        tooltip: match widget {
            Some(x) => if show_tooltips {
                title_text(w)
            } else {
                x.tooltip
            },
            None => title_text(w),
        },
    }
}

/// The widgets after the one of a window was made or brought up to date.
pub open spec fn widgets_with(
    ws: Seq<WidgetModel>,
    w: WindowInfo,
    show_tooltips: bool,
    scale: i32,
) -> Seq<WidgetModel> {
    match widget_from(ws, w.id, 0) {
        Some(i) => ws.update(i, refreshed(Some(ws[i]), w, show_tooltips, scale)),
        None => ws.push(refreshed(None, w, show_tooltips, scale)),
    }
}

/// The widgets after those of a row of windows were made or brought up to date,
/// one after the other.
pub open spec fn widgets_after(
    ws: Seq<WidgetModel>,
    rows: Seq<WindowInfo>,
    show_tooltips: bool,
    scale: i32,
) -> Seq<WidgetModel>
    decreases rows.len(),
{
    if rows.len() == 0 {
        ws
    } else {
        widgets_with(
            widgets_after(ws, rows.drop_last(), show_tooltips, scale),
            rows.last(),
            show_tooltips,
            scale,
        )
    }
}

/// `p` is what is to be done for a window, given what is shown for it.
pub open spec fn plans(
    p: ButtonPlan,
    widget: Option<WidgetModel>,
    w: WindowInfo,
    index: int,
    preview_id: Option<u64>,
    dragged: Option<GlobalDragState>,
    output: Option<String>,
    show_tooltips: bool,
    scale: i32,
) -> bool {
    &&& p.id == w.id
    &&& p.index == index
    &&& p.is_new == (widget is None)
    &&& p.icon_key@ == icon_text(w)
    &&& p.title@ == title_text(w)
    &&& p.is_focused == w.is_focused
    &&& p.set_focus == (match widget {
        Some(x) => x.focused != w.is_focused,
        None => w.is_focused,
    })
    &&& p.look == look_of(widget is None, w.id, preview_id, dragged, output)
    &&& p.set_tooltip == (show_tooltips && (match widget {
        Some(x) => x.tooltip != title_text(w),
        None => true,
    }))
    &&& p.set_icon == (match widget {
        Some(x) => x.icon != icon_text(w) || x.scale != scale,
        None => true,
    })
    &&& p.reorder == (widget is None || !held_here(dragged, w.id, output))
}

/// The widget of a window among widgets.
pub open spec fn widget_of(ws: Seq<WidgetModel>, id: u64) -> Option<WidgetModel> {
    match widget_from(ws, id, 0) {
        Some(i) => Some(ws[i]),
        None => None,
    }
}

/// Some window of the row has the id.
pub open spec fn has_id(rows: Seq<WindowInfo>, id: u64) -> bool {
    state::window_from(rows, id, 0) is Some
}

/// The widgets of the windows of a row.
pub open spec fn kept(ws: Seq<WidgetModel>, rows: Seq<WindowInfo>) -> Seq<WidgetModel> {
    ws.filter(|w: WidgetModel| has_id(rows, w.id))
}

/// The widgets of windows that are not in the row.
pub open spec fn dropped(ws: Seq<WidgetModel>, rows: Seq<WindowInfo>) -> Seq<WidgetModel> {
    ws.filter(|w: WidgetModel| !has_id(rows, w.id))
}

/// The ids of widgets.
pub open spec fn ids(ws: Seq<WidgetModel>) -> Seq<u64> {
    ws.map_values(|w: WidgetModel| w.id)
}

/// The first child from `i` on whose far edge lies beyond the pointer; the number
/// of children where there is none.
pub open spec fn edge_from(children: Seq<drag::ChildBounds>, pointer: int, i: int) -> int
    decreases children.len() - i,
{
    if 0 <= i < children.len() && pointer >= (children[i].pos + children[i].len) * 256 {
        edge_from(children, pointer, i + 1)
    } else {
        i
    }
}

/// The top left corner of an output in logical pixels; the origin where it is not
/// known.
pub open spec fn output_corner(output: Option<String>, m: Map<Seq<char>, OutputInfo>) -> (int, int) {
    match output {
        Some(name) => if m.dom().contains(name@) {
            match m[name@].logical {
                Some(l) => (l.x as int, l.y as int),
                None => (0, 0),
            }
        } else {
            (0, 0)
        },
        None => (0, 0),
    }
}

/// Where the pointer of a drag is along the taskbar, in 256ths of a pixel.
pub open spec fn pointer_along(
    d: GlobalDragState,
    output: Option<String>,
    m: Map<Seq<char>, OutputInfo>,
    g: TaskbarGeometry,
) -> int {
    if g.vertical {
        d.current_global_y - output_corner(output, m).1 * 256 - g.offset.1 * 256
    } else {
        d.current_global_x - output_corner(output, m).0 * 256 - g.offset.0 * 256
    }
}

/// The window that is dragged to this output from another one, and is not shown
/// here yet.
pub open spec fn incoming(
    windows: Seq<WindowInfo>,
    filtered: Seq<WindowInfo>,
    dragged: Option<GlobalDragState>,
    output: Option<String>,
) -> Option<int> {
    match dragged {
        Some(d) => if d.is_dragging && d.target_output is Some && text::opt(d.target_output) == text::opt(
            output,
        ) && text::opt(d.source_output) != text::opt(output) && !has_id(filtered, d.window_id) {
            state::window_from(windows, d.window_id, 0)
        } else {
            None
        },
        None => None,
    }
}

/// The slot at which the incoming window is shown.
pub open spec fn incoming_slot(
    filtered: Seq<WindowInfo>,
    d: GlobalDragState,
    output: Option<String>,
    m: Map<Seq<char>, OutputInfo>,
    g: TaskbarGeometry,
) -> int {
    let slot = edge_from(g.children@, pointer_along(d, output, m, g), 0);
    if slot < filtered.len() {
        slot
    } else {
        filtered.len() as int
    }
}

/// The windows that the taskbar shows: those of its output, and the one that is
/// being dragged to it.
pub open spec fn rows_of(
    windows: Seq<WindowInfo>,
    filtered: Seq<WindowInfo>,
    dragged: Option<GlobalDragState>,
    output: Option<String>,
    m: Map<Seq<char>, OutputInfo>,
    g: TaskbarGeometry,
) -> Seq<WindowInfo> {
    match incoming(windows, filtered, dragged, output) {
        Some(i) => filtered.insert(incoming_slot(filtered, dragged->0, output, m, g), windows[i]),
        None => filtered,
    }
}

/// The drag after the taskbar of an output was laid out: where it shows the
/// incoming window, the slot is the one to drop it at.
pub open spec fn drag_after(
    windows: Seq<WindowInfo>,
    filtered: Seq<WindowInfo>,
    dragged: Option<GlobalDragState>,
    output: Option<String>,
    m: Map<Seq<char>, OutputInfo>,
    g: TaskbarGeometry,
) -> Option<GlobalDragState> {
    match incoming(windows, filtered, dragged, output) {
        Some(i) => Some(
            GlobalDragState {
                target_slot: incoming_slot(filtered, dragged->0, output, m, g) as usize,
                target_slot_valid: true,
                ..dragged->0
            },
        ),
        None => dragged,
    }
}

fn find_edge(children: &Vec<drag::ChildBounds>, pointer: i128) -> (r: usize)
    ensures
        r == edge_from(children@, pointer as int, 0),
        r <= children@.len(),
{
    let mut i: usize = 0;
    while i < children.len() && pointer >= (children[i].pos as i128 + children[i].len as i128) * 256
        invariant
            i <= children@.len(),
            edge_from(children@, pointer as int, i as int) == edge_from(children@, pointer as int, 0),
        decreases children@.len() - i,
    {
        i = i + 1;
    }
    i
}

fn corner_of(output: &Option<String>, outputs: &NameMap<OutputInfo>) -> (r: (i32, i32))
    ensures
        (r.0 as int, r.1 as int) == output_corner(*output, outputs@),
{
    match output {
        Some(name) => match outputs.get(name.as_str()) {
            Some(out) => match &out.logical {
                Some(l) => (l.x, l.y),
                None => (0, 0),
            },
            None => (0, 0),
        },
        None => (0, 0),
    }
}

/// Puts the window that is dragged to this output among those that its taskbar
/// shows. Returns the id of that window.
pub fn insert_incoming(
    windows: &Vec<WindowInfo>,
    filtered: &mut Vec<WindowInfo>,
    dragged: &mut Option<GlobalDragState>,
    output: &Option<String>,
    outputs: &NameMap<OutputInfo>,
    g: &TaskbarGeometry,
) -> (r: Option<u64>)
    ensures
        final(filtered)@ == rows_of(
            windows@,
            old(filtered)@,
            *old(dragged),
            *output,
            outputs@,
            *g,
        ),
        *final(dragged) == drag_after(
            windows@,
            old(filtered)@,
            *old(dragged),
            *output,
            outputs@,
            *g,
        ),
        r == (match incoming(windows@, old(filtered)@, *old(dragged), *output) {
            Some(i) => Some(windows@[i].id),
            None => None,
        }),
{
    let at: Option<(usize, usize)> = match &*dragged {
        Some(d) => {
            if d.is_dragging && d.target_output.is_some() && text::same_opt(&d.target_output, output)
                && !text::same_opt(&d.source_output, output) && state::find_window(
                filtered,
                d.window_id,
            ).is_none() {
                match state::find_window(windows, d.window_id) {
                    Some(i) => {
                        let corner: (i32, i32) = corner_of(output, outputs);
                        let pointer: i128 = if g.vertical {
                            d.current_global_y as i128 - corner.1 as i128 * 256 - g.offset.1 as i128 * 256
                        } else {
                            d.current_global_x as i128 - corner.0 as i128 * 256 - g.offset.0 as i128 * 256
                        };
                        let edge: usize = find_edge(&g.children, pointer);
                        let slot: usize = if edge < filtered.len() {
                            edge
                        } else {
                            filtered.len()
                        };
                        Some((i, slot))
                    },
                    None => None,
                }
            } else {
                None
            }
        },
        None => None,
    };
    match at {
        Some((i, slot)) => {
            proof {
                state::lemma_window_from(windows@, (*old(dragged))->0.window_id, 0);
            }
            let w: WindowInfo = windows[i].copy();
            let id: u64 = w.id;
            filtered.insert(slot, w);
            drag::store_target_slot(dragged, id, slot);
            Some(id)
        },
        None => None,
    }
}

fn find_widget(ws: &Vec<WindowWidget>, id: u64) -> (r: Option<usize>)
    ensures
        match r {
            Some(k) => k < ws@.len() && widget_from(models(ws@), id, 0) == Some(k as int),
            None => widget_from(models(ws@), id, 0) is None,
        },
{
    let mut i: usize = 0;
    while i < ws.len()
        invariant
            i <= ws@.len(),
            widget_from(models(ws@), id, i as int) == widget_from(models(ws@), id, 0),
        decreases ws@.len() - i,
    {
        assert(models(ws@)[i as int] == ws@[i as int].model());
        if ws[i].id == id {
            return Some(i);
        }
        i = i + 1;
    }
    None
}

fn icon_of(w: &WindowInfo) -> (s: String)
    ensures
        s@ == icon_text(*w),
{
    match &w.app_id {
        Some(a) => a.clone(),
        None => "application-x-executable".to_owned(),
    }
}

fn title_of(w: &WindowInfo) -> (s: String)
    ensures
        s@ == title_text(*w),
{
    match &w.title {
        Some(t) => t.clone(),
        None => icon_of(w),
    }
}

fn plan_button(
    widget: Option<&WindowWidget>,
    w: &WindowInfo,
    index: usize,
    preview_id: Option<u64>,
    dragged: &Option<GlobalDragState>,
    output: &Option<String>,
    show_tooltips: bool,
    scale: i32,
) -> (p: ButtonPlan)
    ensures
        plans(
            p,
            match widget {
                Some(x) => Some(x.model()),
                None => None,
            },
            *w,
            index as int,
            preview_id,
            *dragged,
            *output,
            show_tooltips,
            scale,
        ),
{
    let icon: String = icon_of(w);
    let title: String = title_of(w);
    let is_preview: bool = match preview_id {
        Some(g) => g == w.id,
        None => false,
    };
    let (held, dragging, targeting): (bool, bool, bool) = match dragged {
        Some(d) => (
            d.window_id == w.id && text::same_opt(&d.source_output, output),
            d.is_dragging,
            d.target_output.is_some(),
        ),
        None => (false, false, false),
    };
    let look: DragLook = if is_preview {
        DragLook::Preview
    } else if widget.is_none() || !held || !dragging {
        DragLook::Plain
    } else if targeting {
        DragLook::Away
    } else {
        DragLook::Held
    };
    match widget {
        Some(x) => {
            let set_tooltip: bool = show_tooltips && !text::same(x.tooltip.as_str(), title.as_str());
            let set_icon: bool = !text::same(x.icon_key.as_str(), icon.as_str()) || x.icon_scale != scale;
            ButtonPlan {
                id: w.id,
                index,
                is_new: false,
                icon_key: icon,
                title,
                is_focused: w.is_focused,
                set_focus: x.is_focused != w.is_focused,
                look,
                set_tooltip,
                set_icon,
                reorder: !held,
            }
        },
        None => ButtonPlan {
            id: w.id,
            index,
            is_new: true,
            icon_key: icon,
            title,
            is_focused: w.is_focused,
            set_focus: w.is_focused,
            look,
            set_tooltip: show_tooltips,
            set_icon: true,
            reorder: true,
        },
    }
}

/// Takes out the widgets of windows that are no longer in the row, and gives the
/// ids of those windows.
pub fn drop_widgets(widgets: &mut Vec<WindowWidget>, rows: &Vec<WindowInfo>) -> (removed: Vec<u64>)
    ensures
        models(final(widgets)@) == kept(models(old(widgets)@), rows@),
        removed@ == ids(dropped(models(old(widgets)@), rows@)),
{
    let ghost before: Seq<WidgetModel> = models(widgets@);
    let ghost keep = |w: WidgetModel| has_id(rows@, w.id);
    let ghost drop = |w: WidgetModel| !has_id(rows@, w.id);
    let mut left: Vec<WindowWidget> = Vec::new();
    let mut removed: Vec<u64> = Vec::new();
    let mut i: usize = 0;
    proof {
        reveal(Seq::filter);
        assert(before.take(0) =~= Seq::empty());
        assert(models(left@) =~= before.take(0).filter(keep));
        assert(removed@ =~= ids(before.take(0).filter(drop)));
    }
    while i < widgets.len()
        invariant
            i <= widgets@.len(),
            before == models(widgets@),
            keep == (|w: WidgetModel| has_id(rows@, w.id)),
            drop == (|w: WidgetModel| !has_id(rows@, w.id)),
            models(left@) == before.take(i as int).filter(keep),
            removed@ == ids(before.take(i as int).filter(drop)),
        decreases widgets@.len() - i,
    {
        proof {
            reveal(Seq::filter);
            assert(before.take(i + 1).drop_last() =~= before.take(i as int));
            assert(before.take(i + 1).last() == widgets@[i as int].model());
        }
        let ghost was: Seq<WindowWidget> = left@;
        let ghost gone: Seq<u64> = removed@;
        let stays: bool = state::find_window(rows, widgets[i].id).is_some();
        if stays {
            let w: &WindowWidget = &widgets[i];
            left.push(
                WindowWidget {
                    id: w.id,
                    icon_key: w.icon_key.clone(),
                    icon_scale: w.icon_scale,
                    is_focused: w.is_focused,
                    tooltip: w.tooltip.clone(),
                },
            );
            assert(models(left@) =~= models(was).push(widgets@[i as int].model()));
        } else {
            removed.push(widgets[i].id);
            assert(removed@ =~= ids(before.take(i + 1).filter(drop)));
        }
        i = i + 1;
    }
    assert(before.take(before.len() as int) =~= before);
    *widgets = left;
    removed
}

/// What is to be done for the buttons of a row of windows. The widgets are brought
/// up to date with it.
pub fn plan_buttons(
    widgets: &mut Vec<WindowWidget>,
    rows: &Vec<WindowInfo>,
    preview_id: Option<u64>,
    dragged: &Option<GlobalDragState>,
    output: &Option<String>,
    show_tooltips: bool,
    scale: i32,
) -> (r: Vec<ButtonPlan>)
    ensures
        r@.len() == rows@.len(),
        forall|i: int|
            0 <= i < rows@.len() ==> plans(
                #[trigger] r@[i],
                widget_of(
                    widgets_after(models(old(widgets)@), rows@.take(i), show_tooltips, scale),
                    rows@[i].id,
                ),
                rows@[i],
                i,
                preview_id,
                *dragged,
                *output,
                show_tooltips,
                scale,
            ),
        models(final(widgets)@) == widgets_after(models(old(widgets)@), rows@, show_tooltips, scale),
{
    let ghost before: Seq<WidgetModel> = models(widgets@);
    let mut r: Vec<ButtonPlan> = Vec::new();
    let mut i: usize = 0;
    assert(rows@.take(0) =~= Seq::empty());
    while i < rows.len()
        invariant
            i <= rows@.len(),
            r@.len() == i,
            models(widgets@) == widgets_after(before, rows@.take(i as int), show_tooltips, scale),
            forall|k: int|
                0 <= k < i ==> plans(
                    #[trigger] r@[k],
                    widget_of(
                        widgets_after(before, rows@.take(k), show_tooltips, scale),
                        rows@[k].id,
                    ),
                    rows@[k],
                    k,
                    preview_id,
                    *dragged,
                    *output,
                    show_tooltips,
                    scale,
                ),
        decreases rows@.len() - i,
    {
        proof {
            assert(rows@.take(i + 1).drop_last() =~= rows@.take(i as int));
        }
        let w: &WindowInfo = &rows[i];
        let ghost was: Seq<WindowWidget> = widgets@;
        let at: Option<usize> = find_widget(widgets, w.id);
        let p: ButtonPlan = match at {
            Some(k) => plan_button(
                Some(&widgets[k]),
                w,
                i,
                preview_id,
                dragged,
                output,
                show_tooltips,
                scale,
            ),
            None => plan_button(None, w, i, preview_id, dragged, output, show_tooltips, scale),
        };
        match at {
            Some(k) => {
                let tooltip: String = if show_tooltips {
                    p.title.clone()
                } else {
                    widgets[k].tooltip.clone()
                };
                let fresh: WindowWidget = WindowWidget {
                    id: w.id,
                    icon_key: p.icon_key.clone(),
                    icon_scale: scale,
                    is_focused: w.is_focused,
                    tooltip,
                };
                widgets.set(k, fresh);
                assert(models(widgets@) =~= models(was).update(k as int, fresh.model()));
            },
            None => {
                let fresh: WindowWidget = WindowWidget {
                    id: w.id,
                    icon_key: p.icon_key.clone(),
                    icon_scale: scale,
                    is_focused: w.is_focused,
                    tooltip: p.title.clone(),
                };
                widgets.push(fresh);
                assert(models(widgets@) =~= models(was).push(fresh.model()));
            },
        }
        r.push(p);
        i = i + 1;
    }
    assert(rows@.take(rows@.len() as int) =~= rows@);
    r
}

/// The taskbar of a bar is laid out as the windows, workspaces and the drag ask
/// for: `filtered` are the windows of its output in their order.
pub open spec fn laid_out(
    plan: TaskbarPlan,
    filtered: Seq<WindowInfo>,
    windows: Seq<WindowInfo>,
    before: Seq<WidgetModel>,
    after: Seq<WidgetModel>,
    dragged: Option<GlobalDragState>,
    output: Option<String>,
    m: Map<Seq<char>, OutputInfo>,
    g: TaskbarGeometry,
    show_tooltips: bool,
) -> bool {
    let rows = rows_of(windows, filtered, dragged, output, m, g);
    let scale = if g.scale_factor < 1 {
        1
    } else {
        g.scale_factor
    };
    let preview_id = match incoming(windows, filtered, dragged, output) {
        Some(i) => Some(windows[i].id),
        None => None,
    };
    let stay = kept(before, rows);
    &&& plan.visible
    &&& plan.removed@ == ids(dropped(before, rows))
    &&& plan.buttons@.len() == rows.len()
    &&& forall|i: int|
        0 <= i < rows.len() ==> plans(
            #[trigger] plan.buttons@[i],
            widget_of(widgets_after(stay, rows.take(i), show_tooltips, scale), rows[i].id),
            rows[i],
            i,
            preview_id,
            dragged,
            output,
            show_tooltips,
            scale,
        )
    &&& after == widgets_after(stay, rows, show_tooltips, scale)
}

/// The taskbar of a bar.
#[derive(Debug)]
pub struct TaskbarWidget {
    /// What is shown for the windows.
    pub widgets: Vec<WindowWidget>,
}

impl TaskbarWidget {
    /// A taskbar that shows nothing yet.
    pub fn new() -> (r: Self)
        ensures
            models(r.widgets@) == Seq::<WidgetModel>::empty(),
    {
        let r: TaskbarWidget = TaskbarWidget { widgets: Vec::new() };
        assert(models(r.widgets@) =~= Seq::empty());
        r
    }

    /// Brings the taskbar of a bar up to date: which buttons go, and what is to be
    /// done for each that is shown. A window that is dragged to this output stands
    /// among them, and its slot is stored in the drag.
    pub fn reconcile(
        &mut self,
        current_output: &Option<String>,
        st: &state::AppState,
        config: &TaskbarConfig,
        dragged: &mut Option<GlobalDragState>,
        g: &TaskbarGeometry,
    ) -> (r: TaskbarPlan)
        ensures
            !config.enabled ==> !r.visible && r.removed@.len() == 0 && r.buttons@.len() == 0
                && *final(self) == *old(self) && *final(dragged) == *old(dragged),
            config.enabled ==> exists|filtered: Seq<WindowInfo>|
                {
                    &&& sorted_from(
                        st.windows@.filter(
                            shown(st.workspaces@, *current_output, config.only_current_workspace),
                        ),
                        filtered,
                    )
                    &&& #[trigger] laid_out(
                        r,
                        filtered,
                        st.windows@,
                        models(old(self).widgets@),
                        models(final(self).widgets@),
                        *old(dragged),
                        *current_output,
                        st.outputs@,
                        *g,
                        config.show_tooltips,
                    )
                    &&& *final(dragged) == drag_after(
                        st.windows@,
                        filtered,
                        *old(dragged),
                        *current_output,
                        st.outputs@,
                        *g,
                    )
                },
    {
        if !config.enabled {
            return TaskbarPlan { visible: false, removed: Vec::new(), buttons: Vec::new() };
        }
        let mut rows: Vec<WindowInfo> = filter_windows_for_output(
            &st.windows,
            &st.workspaces,
            current_output,
            config.only_current_workspace,
        );
        let ghost filtered: Seq<WindowInfo> = rows@;
        let ghost before: Seq<WidgetModel> = models(self.widgets@);
        let snapshot: Option<GlobalDragState> = drag::copy_drag(dragged);
        let preview_id: Option<u64> = insert_incoming(
            &st.windows,
            &mut rows,
            dragged,
            current_output,
            &st.outputs,
            g,
        );
        let scale: i32 = if g.scale_factor < 1 {
            1
        } else {
            g.scale_factor
        };
        let removed: Vec<u64> = drop_widgets(&mut self.widgets, &rows);
        let buttons: Vec<ButtonPlan> = plan_buttons(
            &mut self.widgets,
            &rows,
            preview_id,
            &snapshot,
            current_output,
            config.show_tooltips,
            scale,
        );
        let r: TaskbarPlan = TaskbarPlan { visible: true, removed, buttons };
        assert(laid_out(
            r,
            filtered,
            st.windows@,
            before,
            models(self.widgets@),
            *old(dragged),
            *current_output,
            st.outputs@,
            *g,
            config.show_tooltips,
        ));
        r
    }
}

/// The first widget of a window is one of the widgets.
proof fn lemma_widget_from(ws: Seq<WidgetModel>, id: u64, i: int)
    requires
        0 <= i,
    ensures
        match widget_from(ws, id, i) {
            Some(k) => i <= k < ws.len() && ws[k].id == id && forall|j: int|
                i <= j < k ==> (#[trigger] ws[j]).id != id,
            None => forall|j: int| i <= j < ws.len() ==> (#[trigger] ws[j]).id != id,
        },
    decreases ws.len() - i,
{
    if i < ws.len() && ws[i].id != id {
        lemma_widget_from(ws, id, i + 1);
    }
}

/// The widget of a window, after that of another one or its own was brought up to
/// date.
proof fn lemma_widgets_with(ws: Seq<WidgetModel>, w: WindowInfo, show_tooltips: bool, scale: i32, id: u64)
    ensures
        widget_of(widgets_with(ws, w, show_tooltips, scale), id) == (if id == w.id {
            Some(refreshed(widget_of(ws, id), w, show_tooltips, scale))
        } else {
            widget_of(ws, id)
        }),
{
    let next = widgets_with(ws, w, show_tooltips, scale);
    lemma_widget_from(ws, w.id, 0);
    lemma_widget_from(ws, id, 0);
    lemma_widget_from(next, id, 0);
    match widget_from(ws, id, 0) {
        Some(k) => {
            assert(next[k].id == id);
        },
        None => {},
    }
    match widget_from(next, id, 0) {
        Some(k) => {
            if k < ws.len() {
                assert(ws[k].id == id);
            }
        },
        None => {
            if id == w.id {
                match widget_from(ws, id, 0) {
                    Some(k) => {
                        assert(next[k].id == id);
                    },
                    None => {
                        assert(next[ws.len() as int].id == id);
                    },
                }
            }
        },
    }
}

/// No two windows of the row share an id.
pub open spec fn ids_differ(rows: Seq<WindowInfo>) -> bool {
    forall|i: int, j: int| 0 <= i < j < rows.len() ==> (#[trigger] rows[i]).id != (#[trigger] rows[j]).id
}

/// The widget of a window, after those of a row were brought up to date.
proof fn lemma_widgets_after(
    ws: Seq<WidgetModel>,
    rows: Seq<WindowInfo>,
    show_tooltips: bool,
    scale: i32,
    id: u64,
)
    requires
        ids_differ(rows),
    ensures
        widget_of(widgets_after(ws, rows, show_tooltips, scale), id) == (match state::window_from(rows, id, 0) {
            Some(k) => Some(refreshed(widget_of(ws, id), rows[k], show_tooltips, scale)),
            None => widget_of(ws, id),
        }),
    decreases rows.len(),
{
    if rows.len() > 0 {
        let front = rows.drop_last();
        assert(ids_differ(front)) by {
            assert forall|i: int, j: int| 0 <= i < j < front.len() implies (#[trigger] front[i]).id != (
            #[trigger] front[j]).id by {
                assert(rows[i].id != rows[j].id);
            }
        }
        lemma_widgets_after(ws, front, show_tooltips, scale, id);
        lemma_widgets_with(
            widgets_after(ws, front, show_tooltips, scale),
            rows.last(),
            show_tooltips,
            scale,
            id,
        );
        state::lemma_window_from(rows, id, 0);
        state::lemma_window_from(front, id, 0);
        match state::window_from(front, id, 0) {
            Some(k) => {
                assert(rows[k] == front[k]);
                assert(rows[k].id != rows[rows.len() - 1].id);
                let other = state::window_from(rows, id, 0)->0;
                if other < k {
                    assert(front[other] == rows[other]);
                }
            },
            None => {
                match state::window_from(rows, id, 0) {
                    Some(k) => {
                        if k < front.len() {
                            assert(front[k] == rows[k]);
                        }
                    },
                    None => {
                        assert(rows[rows.len() - 1].id != id);
                    },
                }
            },
        }
    } else {
        assert(state::window_from(rows, id, 0) is None);
    }
}

/// A widget is kept if and only if its window is in the row.
proof fn lemma_kept(ws: Seq<WidgetModel>, rows: Seq<WindowInfo>, id: u64)
    ensures
        widget_of(kept(ws, rows), id) == (if has_id(rows, id) {
            widget_of(ws, id)
        } else {
            None
        }),
    decreases ws.len(),
{
    let keep = |w: WidgetModel| has_id(rows, w.id);
    if ws.len() == 0 {
        reveal(Seq::filter);
        assert(kept(ws, rows) =~= ws);
    } else {
        let front = ws.drop_last();
        let w = ws.last();
        lemma_kept(front, rows, id);
        assert(ws =~= front.push(w));
        front.lemma_filter_push(w, keep);
        lemma_widget_push(front, w, id);
        if has_id(rows, w.id) {
            lemma_widget_push(kept(front, rows), w, id);
        }
    }
}

/// The widget of a window, after one more was put behind all.
proof fn lemma_widget_push(ws: Seq<WidgetModel>, w: WidgetModel, id: u64)
    ensures
        widget_of(ws.push(w), id) == (match widget_of(ws, id) {
            Some(x) => Some(x),
            None => if w.id == id {
                Some(w)
            } else {
                None
            },
        }),
{
    let next = ws.push(w);
    lemma_widget_from(ws, id, 0);
    lemma_widget_from(next, id, 0);
    match widget_from(ws, id, 0) {
        Some(k) => {
            assert(next[k] == ws[k]);
            let other = widget_from(next, id, 0)->0;
            if other < k {
                assert(ws[other] == next[other]);
            }
        },
        None => {
            assert(next[ws.len() as int] == w);
            match widget_from(next, id, 0) {
                Some(k) => {
                    if k < ws.len() {
                        assert(ws[k] == next[k]);
                    }
                },
                None => {},
            }
        },
    }
}

/// A taskbar that was brought up to date shows every window of the row, as it is, and
/// no other.
pub proof fn law_taskbar_shows_its_row(
    before: Seq<WidgetModel>,
    rows: Seq<WindowInfo>,
    show_tooltips: bool,
    scale: i32,
    id: u64,
)
    requires
        ids_differ(rows),
    ensures
        ({
            let after = widgets_after(kept(before, rows), rows, show_tooltips, scale);
            match state::window_from(rows, id, 0) {
                Some(k) => widget_of(after, id) matches Some(x) && x.icon == icon_text(rows[k]) && x.focused
                    == rows[k].is_focused && x.scale == scale && (show_tooltips ==> x.tooltip
                    == title_text(rows[k])),
                None => widget_of(after, id) is None,
            }
        }),
{
    lemma_kept(before, rows, id);
    lemma_widgets_after(kept(before, rows), rows, show_tooltips, scale, id);
}

/// Where the widgets are those of a row, none is dropped.
proof fn lemma_none_dropped(ws: Seq<WidgetModel>, rows: Seq<WindowInfo>)
    requires
        forall|i: int| 0 <= i < ws.len() ==> has_id(rows, (#[trigger] ws[i]).id),
    ensures
        kept(ws, rows) == ws,
        dropped(ws, rows).len() == 0,
    decreases ws.len(),
{
    let keep = |w: WidgetModel| has_id(rows, w.id);
    let drop = |w: WidgetModel| !has_id(rows, w.id);
    if ws.len() == 0 {
        reveal(Seq::filter);
        assert(kept(ws, rows) =~= ws);
        assert(dropped(ws, rows) =~= ws);
    } else {
        let front = ws.drop_last();
        assert forall|i: int| 0 <= i < front.len() implies has_id(rows, (#[trigger] front[i]).id) by {
            assert(front[i] == ws[i]);
        }
        lemma_none_dropped(front, rows);
        assert(has_id(rows, ws[ws.len() - 1].id));
        assert(ws =~= front.push(ws.last()));
        front.lemma_filter_push(ws.last(), keep);
        front.lemma_filter_push(ws.last(), drop);
    }
}

/// Every widget stands under the id of its own.
proof fn lemma_widget_present(ws: Seq<WidgetModel>, i: int)
    requires
        0 <= i < ws.len(),
    ensures
        widget_of(ws, ws[i].id) is Some,
{
    lemma_widget_from(ws, ws[i].id, 0);
}

/// Bringing a taskbar up to date again, with nothing changed meanwhile, changes nothing:
/// no button goes, none is made, and none gets another icon, tooltip or mark of focus.
pub proof fn law_second_layout_changes_nothing(
    first: TaskbarPlan,
    second: TaskbarPlan,
    filtered: Seq<WindowInfo>,
    windows: Seq<WindowInfo>,
    before: Seq<WidgetModel>,
    between: Seq<WidgetModel>,
    after: Seq<WidgetModel>,
    dragged: Option<GlobalDragState>,
    output: Option<String>,
    m: Map<Seq<char>, OutputInfo>,
    g: TaskbarGeometry,
    show_tooltips: bool,
)
    requires
        ids_differ(filtered),
        laid_out(first, filtered, windows, before, between, dragged, output, m, g, show_tooltips),
        laid_out(
            second,
            filtered,
            windows,
            between,
            after,
            drag_after(windows, filtered, dragged, output, m, g),
            output,
            m,
            g,
            show_tooltips,
        ),
    ensures
        second.removed@.len() == 0,
        second.buttons@.len() == first.buttons@.len(),
        forall|i: int|
            0 <= i < second.buttons@.len() ==> {
                let p = #[trigger] second.buttons@[i];
                &&& p.id == first.buttons@[i].id
                &&& !p.is_new
                &&& !p.set_focus
                &&& !p.set_tooltip
                &&& !p.set_icon
            },
{
    let rows = rows_of(windows, filtered, dragged, output, m, g);
    let scale = if g.scale_factor < 1 {
        1
    } else {
        g.scale_factor
    };
    let later = drag_after(windows, filtered, dragged, output, m, g);
    assert(incoming(windows, filtered, later, output) == incoming(windows, filtered, dragged, output));
    assert(rows_of(windows, filtered, later, output, m, g) == rows);
    lemma_rows_differ(windows, filtered, dragged, output, m, g);
    assert forall|i: int| 0 <= i < between.len() implies has_id(rows, (#[trigger] between[i]).id) by {
        lemma_widget_present(between, i);
        law_taskbar_shows_its_row(before, rows, show_tooltips, scale, between[i].id);
    }
    lemma_none_dropped(between, rows);
    assert forall|i: int| 0 <= i < second.buttons@.len() implies {
        let p = #[trigger] second.buttons@[i];
        &&& p.id == first.buttons@[i].id
        &&& !p.is_new
        &&& !p.set_focus
        &&& !p.set_tooltip
        &&& !p.set_icon
    } by {
        let id = rows[i].id;
        let part = rows.take(i);
        assert(plans(
            first.buttons@[i],
            widget_of(widgets_after(kept(before, rows), part, show_tooltips, scale), id),
            rows[i],
            i,
            match incoming(windows, filtered, dragged, output) {
                Some(k) => Some(windows[k].id),
                None => None,
            },
            dragged,
            output,
            show_tooltips,
            scale,
        ));
        assert(ids_differ(part)) by {
            assert forall|a: int, b: int| 0 <= a < b < part.len() implies (#[trigger] part[a]).id != (
            #[trigger] part[b]).id by {
                assert(rows[a].id != rows[b].id);
            }
        }
        state::lemma_window_from(part, id, 0);
        match state::window_from(part, id, 0) {
            Some(k) => {
                assert(part[k] == rows[k]);
                assert(rows[k].id != rows[i].id);
            },
            None => {},
        }
        lemma_widgets_after(between, part, show_tooltips, scale, id);
        law_taskbar_shows_its_row(before, rows, show_tooltips, scale, id);
        state::lemma_window_from(rows, id, 0);
        match state::window_from(rows, id, 0) {
            Some(k) => {
                if k < i {
                    assert(rows[k].id != rows[i].id);
                } else if i < k {
                    assert(rows[i].id != id);
                }
            },
            None => {},
        }
    }
}

/// The window that comes in has another id than those that are there.
proof fn lemma_rows_differ(
    windows: Seq<WindowInfo>,
    filtered: Seq<WindowInfo>,
    dragged: Option<GlobalDragState>,
    output: Option<String>,
    m: Map<Seq<char>, OutputInfo>,
    g: TaskbarGeometry,
)
    requires
        ids_differ(filtered),
    ensures
        ids_differ(rows_of(windows, filtered, dragged, output, m, g)),
{
    let rows = rows_of(windows, filtered, dragged, output, m, g);
    match incoming(windows, filtered, dragged, output) {
        Some(k) => {
            let d = dragged->0;
            let slot = incoming_slot(filtered, d, output, m, g);
            state::lemma_window_from(windows, d.window_id, 0);
            state::lemma_window_from(filtered, d.window_id, 0);
            lemma_edge(g.children@, pointer_along(d, output, m, g), 0);
            assert forall|i: int, j: int| 0 <= i < j < rows.len() implies (#[trigger] rows[i]).id != (
            #[trigger] rows[j]).id by {
                let a = if i < slot {
                    i
                } else {
                    i - 1
                };
                let b = if j < slot {
                    j
                } else {
                    j - 1
                };
                if i == slot {
                    assert(rows[j] == filtered[b]);
                } else if j == slot {
                    assert(rows[i] == filtered[a]);
                } else {
                    assert(rows[i] == filtered[a] && rows[j] == filtered[b]);
                    assert(filtered[a].id != filtered[b].id);
                }
            }
        },
        None => {},
    }
}

/// The edge that is found is not before the start.
proof fn lemma_edge(children: Seq<drag::ChildBounds>, pointer: int, i: int)
    requires
        0 <= i,
    ensures
        i <= edge_from(children, pointer, i),
    decreases children.len() - i,
{
    if i < children.len() && pointer >= (children[i].pos + children[i].len) * 256 {
        lemma_edge(children, pointer, i + 1);
    }
}

/// A window that is dragged to an output and shown there is dropped where it is shown:
/// the row holds it at one slot, and the release asks for that slot, counted from one.
pub proof fn law_drop_goes_where_it_is_shown(
    windows: Seq<WindowInfo>,
    filtered: Seq<WindowInfo>,
    dragged: Option<GlobalDragState>,
    output: Option<String>,
    m: Map<Seq<char>, OutputInfo>,
    g: TaskbarGeometry,
    click_to_focus: bool,
)
    requires
        incoming(windows, filtered, dragged, output) is Some,
        filtered.len() < usize::MAX,
    ensures
        ({
            let d = dragged->0;
            let slot = incoming_slot(filtered, d, output, m, g);
            let rows = rows_of(windows, filtered, dragged, output, m, g);
            &&& 0 <= slot < rows.len()
            &&& rows[slot].id == d.window_id
            &&& drag_after(windows, filtered, dragged, output, m, g) matches Some(later)
                && drag::action_of(later, click_to_focus) matches drag::DragAction::MoveToMonitor {
                output: target,
                slot_1based,
            } && Some(target@) == text::opt(output) && slot_1based == Some((slot + 1) as usize)
        }),
{
    let d = dragged->0;
    state::lemma_window_from(windows, d.window_id, 0);
    lemma_edge(g.children@, pointer_along(d, output, m, g), 0);
}

// ---------------------------------------------------------------------------
// What a taskbar shows, told by the windows and workspaces themselves
// ---------------------------------------------------------------------------

/// A workspace stands on an output.
pub open spec fn stands_on(w: WorkspaceInfo, out: Seq<char>) -> bool {
    w.output matches Some(o) && o@ == out
}

/// Workspace `i` is the one on screen on an output: the last that has the focus; where
/// none has, the first that is active; where none is, the first of all.
pub open spec fn on_screen_at(wss: Seq<WorkspaceInfo>, out: Seq<char>, i: int) -> bool {
    &&& 0 <= i < wss.len()
    &&& stands_on(wss[i], out)
    &&& if wss[i].is_focused {
        forall|j: int| i < j < wss.len() && stands_on(wss[j], out) ==> !(#[trigger] wss[j]).is_focused
    } else {
        &&& forall|j: int| 0 <= j < wss.len() && stands_on(wss[j], out) ==> !(#[trigger] wss[j]).is_focused
        &&& if wss[i].is_active {
            forall|j: int| 0 <= j < i && stands_on(wss[j], out) ==> !(#[trigger] wss[j]).is_active
        } else {
            forall|j: int|
                0 <= j < wss.len() && stands_on(#[trigger] wss[j], out) ==> !wss[j].is_active && i <= j
        }
    }
}

proof fn lemma_last_focused(wss: Seq<WorkspaceInfo>, out: Seq<char>)
    ensures
        match last_focused(wss, out) {
            Some(id) => exists|i: int|
                0 <= i < wss.len() && stands_on(#[trigger] wss[i], out) && wss[i].is_focused && wss[i].id == id
                    && forall|j: int|
                    i < j < wss.len() && stands_on(wss[j], out) ==> !(#[trigger] wss[j]).is_focused,
            None => forall|j: int|
                0 <= j < wss.len() && stands_on(wss[j], out) ==> !(#[trigger] wss[j]).is_focused,
        },
    decreases wss.len(),
{
    if wss.len() > 0 {
        let n = wss.len() - 1;
        if wss[n].is_focused && stands_on(wss[n], out) {
            assert(wss.last() == wss[n]);
        } else {
            let front = wss.drop_last();
            lemma_last_focused(front, out);
            match last_focused(front, out) {
                Some(id) => {
                    let i = choose|i: int|
                        0 <= i < front.len() && stands_on(#[trigger] front[i], out) && front[i].is_focused
                            && front[i].id == id && forall|j: int|
                            i < j < front.len() && stands_on(front[j], out) ==> !(#[trigger] front[j]).is_focused;
                    assert(wss[i] == front[i]);
                    assert forall|j: int| i < j < wss.len() && stands_on(wss[j], out) implies !(
                    #[trigger] wss[j]).is_focused by {
                        if j < n {
                            assert(front[j] == wss[j]);
                        }
                    }
                },
                None => {
                    assert forall|j: int| 0 <= j < wss.len() && stands_on(wss[j], out) implies !(
                    #[trigger] wss[j]).is_focused by {
                        if j < n {
                            assert(front[j] == wss[j]);
                        }
                    }
                },
            }
        }
    }
}

proof fn lemma_first_on(wss: Seq<WorkspaceInfo>, out: Seq<char>, active_only: bool)
    ensures
        match first_on(wss, out, active_only) {
            Some(id) => exists|i: int|
                0 <= i < wss.len() && stands_on(#[trigger] wss[i], out) && (active_only ==> wss[i].is_active)
                    && wss[i].id == id && forall|j: int|
                    0 <= j < i && stands_on(#[trigger] wss[j], out) ==> active_only && !wss[j].is_active,
            None => forall|j: int|
                0 <= j < wss.len() && stands_on(#[trigger] wss[j], out) ==> active_only && !wss[j].is_active,
        },
    decreases wss.len(),
{
    if wss.len() > 0 {
        let n = wss.len() - 1;
        let front = wss.drop_last();
        lemma_first_on(front, out, active_only);
        match first_on(front, out, active_only) {
            Some(id) => {
                let i = choose|i: int|
                    0 <= i < front.len() && stands_on(#[trigger] front[i], out) && (active_only
                        ==> front[i].is_active) && front[i].id == id && forall|j: int|
                        0 <= j < i && stands_on(#[trigger] front[j], out) ==> active_only && !front[j].is_active;
                assert(wss[i] == front[i]);
                assert forall|j: int| 0 <= j < i && stands_on(#[trigger] wss[j], out) implies active_only
                    && !wss[j].is_active by {
                    assert(front[j] == wss[j]);
                }
            },
            None => {
                assert forall|j: int| 0 <= j < n && stands_on(#[trigger] wss[j], out) implies active_only
                    && !wss[j].is_active by {
                    assert(front[j] == wss[j]);
                }
                assert(wss.last() == wss[n]);
            },
        }
    }
}

/// The workspace that counts as the active one of an output is the one on screen there.
/// An output without workspaces has none.
pub proof fn law_active_workspace_is_on_screen(wss: Seq<WorkspaceInfo>, out: Seq<char>)
    ensures
        match active_on(wss, out) {
            Some(id) => exists|i: int| #[trigger] on_screen_at(wss, out, i) && wss[i].id == id,
            None => forall|j: int| 0 <= j < wss.len() ==> !stands_on(#[trigger] wss[j], out),
        },
{
    lemma_last_focused(wss, out);
    lemma_first_on(wss, out, true);
    lemma_first_on(wss, out, false);
    match last_focused(wss, out) {
        Some(id) => {
            let i = choose|i: int|
                0 <= i < wss.len() && stands_on(#[trigger] wss[i], out) && wss[i].is_focused && wss[i].id == id
                    && forall|j: int|
                    i < j < wss.len() && stands_on(wss[j], out) ==> !(#[trigger] wss[j]).is_focused;
            assert(on_screen_at(wss, out, i));
        },
        None => match first_on(wss, out, true) {
            Some(id) => {
                let i = choose|i: int|
                    0 <= i < wss.len() && stands_on(#[trigger] wss[i], out) && wss[i].is_active && wss[i].id == id
                        && forall|j: int|
                        0 <= j < i && stands_on(#[trigger] wss[j], out) ==> !wss[j].is_active;
                assert(on_screen_at(wss, out, i));
            },
            None => match first_on(wss, out, false) {
                Some(id) => {
                    let i = choose|i: int|
                        0 <= i < wss.len() && stands_on(#[trigger] wss[i], out) && wss[i].id == id && forall|j: int|
                            0 <= j < i ==> !stands_on(#[trigger] wss[j], out);
                    assert(on_screen_at(wss, out, i));
                },
                None => {},
            },
        },
    }
}

/// Of an output without a focused workspace, an active one is shown, where there is one.
pub proof fn law_active_workspace_comes_before_others(wss: Seq<WorkspaceInfo>, out: Seq<char>, a: int)
    requires
        0 <= a < wss.len(),
        stands_on(wss[a], out),
        wss[a].is_active,
        forall|j: int| 0 <= j < wss.len() && stands_on(wss[j], out) ==> !(#[trigger] wss[j]).is_focused,
    ensures
        active_on(wss, out) matches Some(id) && exists|i: int|
            0 <= i <= a && stands_on(#[trigger] wss[i], out) && wss[i].is_active && wss[i].id == id,
{
    law_active_workspace_is_on_screen(wss, out);
    let id = active_on(wss, out)->0;
    let i = choose|i: int| #[trigger] on_screen_at(wss, out, i) && wss[i].id == id;
    assert(stands_on(wss[i], out));
    assert(!wss[i].is_focused);
    assert(wss[i].is_active);
    if a < i {
        assert(!wss[a].is_active);
    }
}

/// A focused workspace of an output is shown before all others.
pub proof fn law_focused_workspace_comes_first(wss: Seq<WorkspaceInfo>, out: Seq<char>, a: int)
    requires
        0 <= a < wss.len(),
        stands_on(wss[a], out),
        wss[a].is_focused,
    ensures
        active_on(wss, out) matches Some(id) && exists|i: int|
            a <= i < wss.len() && stands_on(#[trigger] wss[i], out) && wss[i].is_focused && wss[i].id == id,
{
    law_active_workspace_is_on_screen(wss, out);
    let id = active_on(wss, out)->0;
    let i = choose|i: int| #[trigger] on_screen_at(wss, out, i) && wss[i].id == id;
    assert(stands_on(wss[i], out));
    assert(wss[i].is_focused) by {
        if !wss[i].is_focused {
            assert(!wss[a].is_focused);
        }
    }
}

/// Workspace `k` is the one that a window stands on.
pub open spec fn is_home(w: WindowInfo, wss: Seq<WorkspaceInfo>, k: int) -> bool {
    &&& 0 <= k < wss.len()
    &&& w.workspace_id == Some(wss[k].id)
    &&& forall|j: int| 0 <= j < k ==> (#[trigger] wss[j]).id != wss[k].id
}

proof fn lemma_workspace_from(wss: Seq<WorkspaceInfo>, id: u64, i: int)
    requires
        0 <= i,
    ensures
        match workspace_from(wss, id, i) {
            Some(k) => i <= k < wss.len() && wss[k].id == id && forall|j: int|
                i <= j < k ==> (#[trigger] wss[j]).id != id,
            None => forall|j: int| i <= j < wss.len() ==> (#[trigger] wss[j]).id != id,
        },
    decreases wss.len() - i,
{
    if i < wss.len() && wss[i].id != id {
        lemma_workspace_from(wss, id, i + 1);
    }
}

proof fn lemma_shown(w: WindowInfo, wss: Seq<WorkspaceInfo>, bar: String, only_current_workspace: bool)
    ensures
        shown(wss, Some(bar), only_current_workspace)(w) == exists|k: int|
            #[trigger] is_home(w, wss, k) && stands_on(wss[k], bar@) && (only_current_workspace ==> exists|i: int|
                #[trigger] on_screen_at(wss, bar@, i) && wss[i].id == wss[k].id),
{
    let keep = shown(wss, Some(bar), only_current_workspace);
    if w.workspace_id is Some {
        let id = w.workspace_id->0;
        lemma_workspace_from(wss, id, 0);
        law_active_workspace_is_on_screen(wss, bar@);
        if keep(w) {
            let k = workspace_from(wss, id, 0)->0;
            assert(is_home(w, wss, k));
            if only_current_workspace {
                let i = choose|i: int| #[trigger] on_screen_at(wss, bar@, i) && wss[i].id == id;
                assert(on_screen_at(wss, bar@, i) && wss[i].id == wss[k].id);
            }
        }
        if exists|k: int|
            #[trigger] is_home(w, wss, k) && stands_on(wss[k], bar@) && (only_current_workspace ==> exists|i: int|
                #[trigger] on_screen_at(wss, bar@, i) && wss[i].id == wss[k].id) {
            let k = choose|k: int|
                #[trigger] is_home(w, wss, k) && stands_on(wss[k], bar@) && (only_current_workspace ==> exists|i: int|
                    #[trigger] on_screen_at(wss, bar@, i) && wss[i].id == wss[k].id);
            let f = workspace_from(wss, id, 0)->0;
            assert(f == k) by {
                if f < k {
                    assert(wss[f].id != wss[k].id);
                }
            }
            if only_current_workspace {
                let i = choose|i: int| #[trigger] on_screen_at(wss, bar@, i) && wss[i].id == wss[k].id;
                assert(stands_on(wss[i], bar@));
                let a = active_on(wss, bar@)->0;
                let j = choose|j: int| #[trigger] on_screen_at(wss, bar@, j) && wss[j].id == a;
                lemma_one_on_screen(wss, bar@, i, j);
            }
        }
    } else {
        assert(forall|k: int| !is_home(w, wss, k));
    }
}

/// An output has one workspace on screen.
proof fn lemma_one_on_screen(wss: Seq<WorkspaceInfo>, out: Seq<char>, i: int, j: int)
    requires
        on_screen_at(wss, out, i),
        on_screen_at(wss, out, j),
    ensures
        i == j,
{
    assert(stands_on(wss[i], out) && stands_on(wss[j], out));
    if i < j {
        assert(wss[i].is_focused == wss[i].is_focused);
        assert(wss[j].is_focused == wss[j].is_focused);
    } else if j < i {
        assert(wss[j].is_focused == wss[j].is_focused);
        assert(wss[i].is_focused == wss[i].is_focused);
    }
}

/// The bar of an output shows exactly the windows whose workspace stands on the output,
/// and where only the current workspace is shown, is on screen there.
pub proof fn law_bar_shows_the_windows_of_its_output(
    windows: Seq<WindowInfo>,
    wss: Seq<WorkspaceInfo>,
    bar: String,
    only_current_workspace: bool,
    r: Seq<WindowInfo>,
    w: WindowInfo,
)
    requires
        sorted_from(windows.filter(shown(wss, Some(bar), only_current_workspace)), r),
    ensures
        r.contains(w) == (windows.contains(w) && exists|k: int|
            #[trigger] is_home(w, wss, k) && stands_on(wss[k], bar@) && (only_current_workspace ==> exists|i: int|
                #[trigger] on_screen_at(wss, bar@, i) && wss[i].id == wss[k].id)),
{
    broadcast use vstd::seq_lib::group_to_multiset_ensures;

    let keep = shown(wss, Some(bar), only_current_workspace);
    let before = windows.filter(keep);
    law_sort_keeps_windows(before, r);
    lemma_shown(w, wss, bar, only_current_workspace);
    assert(r.contains(w) == before.contains(w)) by {
        assert(r.to_multiset().contains(w) == r.contains(w));
        assert(before.to_multiset().contains(w) == before.contains(w));
    }
    if before.contains(w) {
        windows.lemma_filter_contains_rev(keep, w);
        let i = choose|i: int| 0 <= i < before.len() && before[i] == w;
        windows.lemma_filter_pred(keep, i);
    }
    if windows.contains(w) && keep(w) {
        let i = choose|i: int| 0 <= i < windows.len() && windows[i] == w;
        windows.lemma_filter_contains(keep, i);
    }
}

/// The column and tile of a window in the scrolling layout, where it has one.
pub open spec fn position(w: WindowInfo) -> Option<(usize, usize)> {
    match w.layout {
        Some(l) => l.pos_in_scrolling_layout,
        None => None,
    }
}

/// Windows stand by column, those of a column by tile, and those without a place last.
pub proof fn law_windows_stand_by_column_and_tile(before: Seq<WindowInfo>, after: Seq<WindowInfo>, i: int, j: int)
    requires
        sorted_from(before, after),
        0 <= i < j < after.len(),
    ensures
        match (position(after[i]), position(after[j])) {
            (Some(a), Some(b)) => a.0 < b.0 || (a.0 == b.0 && a.1 <= b.1),
            (None, Some(b)) => b == (usize::MAX, usize::MAX),
            (_, None) => true,
        },
{
    assert(not_after(place(after[i]), place(after[j])));
}

/// Windows at the same place keep the order in which they were reported.
pub proof fn law_windows_at_a_place_keep_their_order(
    before: Seq<WindowInfo>,
    after: Seq<WindowInfo>,
    p: (usize, usize),
)
    requires
        sorted_from(before, after),
        p != (usize::MAX, usize::MAX),
    ensures
        after.filter(|w: WindowInfo| position(w) == Some(p)) == before.filter(
            |w: WindowInfo| position(w) == Some(p),
        ),
{
    let here = |w: WindowInfo| position(w) == Some(p);
    let q = (p.0 as int, p.1 as int);
    let at = |w: WindowInfo| place(w) == q;
    assert(here =~= at);
    assert(windows_at(after, q) == windows_at(before, q));
}

/// Where the pointer is along a taskbar whose output has its corner at `corner`, in
/// 256ths of a pixel.
pub open spec fn along(d: GlobalDragState, corner: (int, int), g: TaskbarGeometry) -> int {
    if g.vertical {
        d.current_global_y - (corner.1 + g.offset.1) * 256
    } else {
        d.current_global_x - (corner.0 + g.offset.0) * 256
    }
}

/// The corner of an output is at `corner`: that of its place, or the origin where it has
/// none.
pub open spec fn corner_at(output: String, m: Map<Seq<char>, OutputInfo>, corner: (int, int)) -> bool {
    if m.dom().contains(output@) && m[output@].logical is Some {
        m[output@].logical->0.x == corner.0 && m[output@].logical->0.y == corner.1
    } else {
        corner == (0int, 0int)
    }
}

proof fn lemma_edge_exact(children: Seq<drag::ChildBounds>, pointer: int, i: int)
    requires
        0 <= i <= children.len(),
    ensures
        ({
            let e = edge_from(children, pointer, i);
            &&& i <= e <= children.len()
            &&& forall|j: int|
                i <= j < e ==> (#[trigger] children[j]).pos * 256 + children[j].len * 256 <= pointer
            &&& e < children.len() ==> pointer < children[e].pos * 256 + children[e].len * 256
        }),
    decreases children.len() - i,
{
    if i < children.len() && pointer >= (children[i].pos + children[i].len) * 256 {
        lemma_edge_exact(children, pointer, i + 1);
    }
}

/// A window that is dragged onto the bar of another output goes in before exactly those
/// windows whose buttons end beyond the pointer, and the release asks for that slot,
/// counted from one.
pub proof fn law_incoming_window_goes_under_the_pointer(
    windows: Seq<WindowInfo>,
    filtered: Seq<WindowInfo>,
    d: GlobalDragState,
    output: String,
    m: Map<Seq<char>, OutputInfo>,
    g: TaskbarGeometry,
    corner: (int, int),
    k: int,
    click_to_focus: bool,
) -> (slot: int)
    requires
        d.is_dragging,
        d.target_output matches Some(t) && t@ == output@,
        d.source_output matches Some(s) ==> s@ != output@,
        forall|i: int| 0 <= i < filtered.len() ==> (#[trigger] filtered[i]).id != d.window_id,
        0 <= k < windows.len(),
        windows[k].id == d.window_id,
        forall|i: int| 0 <= i < k ==> (#[trigger] windows[i]).id != d.window_id,
        corner_at(output, m, corner),
        filtered.len() < usize::MAX,
    ensures
        0 <= slot <= filtered.len(),
        slot <= g.children@.len(),
        forall|j: int|
            0 <= j < slot ==> ((#[trigger] g.children@[j]).pos + g.children@[j].len) * 256 <= along(d, corner, g),
        slot < filtered.len() && slot < g.children@.len() ==> along(d, corner, g) < (g.children@[slot].pos
            + g.children@[slot].len) * 256,
        rows_of(windows, filtered, Some(d), Some(output), m, g) == filtered.insert(slot, windows[k]),
        drag_after(windows, filtered, Some(d), Some(output), m, g) == Some(
            GlobalDragState { target_slot: slot as usize, target_slot_valid: true, ..d },
        ),
        drag::action_of(drag_after(windows, filtered, Some(d), Some(output), m, g)->0, click_to_focus)
            matches drag::DragAction::MoveToMonitor { output: asked, slot_1based } && asked@ == output@ && slot_1based
            == Some((slot + 1) as usize),
{
    state::lemma_window_from(windows, d.window_id, 0);
    state::lemma_window_from(filtered, d.window_id, 0);
    let found = state::window_from(windows, d.window_id, 0)->0;
    assert(found == k) by {
        if found < k {
            assert(windows[found].id != d.window_id);
        }
    }
    assert(incoming(windows, filtered, Some(d), Some(output)) == Some(k));
    assert(pointer_along(d, Some(output), m, g) == along(d, corner, g));
    lemma_edge_exact(g.children@, along(d, corner, g), 0);
    incoming_slot(filtered, d, Some(output), m, g)
}

/// A taskbar shows the windows of its output and no other, and leaves the drag as it is,
/// unless a window is dragged to it from another output.
pub proof fn law_only_a_dragged_window_comes_in(
    windows: Seq<WindowInfo>,
    filtered: Seq<WindowInfo>,
    dragged: Option<GlobalDragState>,
    output: Option<String>,
    m: Map<Seq<char>, OutputInfo>,
    g: TaskbarGeometry,
)
    requires
        match dragged {
            Some(d) => {
                ||| !d.is_dragging
                ||| d.target_output is None
                ||| output is None
                ||| d.target_output->0@ != output->0@
                ||| (d.source_output is Some && d.source_output->0@ == output->0@)
                ||| exists|i: int| 0 <= i < filtered.len() && (#[trigger] filtered[i]).id == d.window_id
                ||| forall|i: int| 0 <= i < windows.len() ==> (#[trigger] windows[i]).id != d.window_id
            },
            None => true,
        },
    ensures
        rows_of(windows, filtered, dragged, output, m, g) == filtered,
        drag_after(windows, filtered, dragged, output, m, g) == dragged,
{
    if let Some(d) = dragged {
        state::lemma_window_from(windows, d.window_id, 0);
        state::lemma_window_from(filtered, d.window_id, 0);
    }
}

/// The name by which a window's icon is looked up is its application's; the words on its
/// button are its title, else that name.
pub proof fn law_button_names_its_window(w: WindowInfo)
    ensures
        w.app_id matches Some(a) ==> icon_text(w) == a@,
        w.app_id is None ==> icon_text(w) == "application-x-executable"@,
        w.title matches Some(t) ==> title_text(w) == t@,
        w.title is None && w.app_id is Some ==> title_text(w) == w.app_id->0@,
{
}

proof fn lemma_before_button(
    before: Seq<WidgetModel>,
    rows: Seq<WindowInfo>,
    i: int,
    show_tooltips: bool,
    scale: i32,
)
    requires
        ids_differ(rows),
        0 <= i < rows.len(),
    ensures
        widget_of(widgets_after(kept(before, rows), rows.take(i), show_tooltips, scale), rows[i].id) == widget_of(
            before,
            rows[i].id,
        ),
{
    let part = rows.take(i);
    let id = rows[i].id;
    assert(ids_differ(part)) by {
        assert forall|a: int, b: int| 0 <= a < b < part.len() implies (#[trigger] part[a]).id != (
        #[trigger] part[b]).id by {
            assert(rows[a].id != rows[b].id);
        }
    }
    lemma_widgets_after(kept(before, rows), part, show_tooltips, scale, id);
    state::lemma_window_from(part, id, 0);
    if let Some(k) = state::window_from(part, id, 0) {
        assert(part[k] == rows[k]);
        assert(rows[k].id != rows[i].id);
    }
    lemma_kept(before, rows, id);
    state::lemma_window_from(rows, id, 0);
    if state::window_from(rows, id, 0) is None {
        assert(rows[i].id != id);
    }
}

/// Every window of the row has one button, at its place: new where the taskbar had none
/// for it, with its icon, title and focus; the mark of focus, the tooltip and the icon are
/// set where they differ from what is shown.
pub proof fn law_every_window_has_its_button(
    plan: TaskbarPlan,
    filtered: Seq<WindowInfo>,
    windows: Seq<WindowInfo>,
    before: Seq<WidgetModel>,
    after: Seq<WidgetModel>,
    dragged: Option<GlobalDragState>,
    output: Option<String>,
    m: Map<Seq<char>, OutputInfo>,
    g: TaskbarGeometry,
    show_tooltips: bool,
    i: int,
)
    requires
        laid_out(plan, filtered, windows, before, after, dragged, output, m, g, show_tooltips),
        ids_differ(filtered),
        0 <= i < rows_of(windows, filtered, dragged, output, m, g).len(),
    ensures
        plan.visible,
        plan.buttons@.len() == rows_of(windows, filtered, dragged, output, m, g).len(),
        ({
            let w = rows_of(windows, filtered, dragged, output, m, g)[i];
            let p = plan.buttons@[i];
            &&& p.id == w.id
            &&& p.index == i
            &&& p.is_focused == w.is_focused
            &&& p.icon_key@ == icon_text(w)
            &&& p.title@ == title_text(w)
            &&& p.is_new == (forall|k: int| 0 <= k < before.len() ==> (#[trigger] before[k]).id != w.id)
            &&& forall|k: int|
                0 <= k < before.len() && (#[trigger] before[k]).id == w.id && (forall|j: int|
                    0 <= j < k ==> (#[trigger] before[j]).id != w.id) ==> {
                    &&& p.set_focus == (before[k].focused != w.is_focused)
                    &&& p.set_tooltip == (show_tooltips && before[k].tooltip != title_text(w))
                    &&& p.set_icon == (before[k].icon != icon_text(w) || before[k].scale != (if g.scale_factor < 1 {
                        1
                    } else {
                        g.scale_factor
                    }))
                }
            &&& p.is_new ==> p.set_focus == w.is_focused && p.set_icon && p.set_tooltip == show_tooltips && p.reorder
        }),
{
    let rows = rows_of(windows, filtered, dragged, output, m, g);
    let scale = if g.scale_factor < 1 {
        1
    } else {
        g.scale_factor
    };
    lemma_rows_differ(windows, filtered, dragged, output, m, g);
    lemma_before_button(before, rows, i, show_tooltips, scale);
    let w = rows[i];
    lemma_widget_from(before, w.id, 0);
    let p = plan.buttons@[i];
    if !p.is_new {
        let f = widget_from(before, w.id, 0)->0;
        assert(before[f].id == w.id);
    }
    assert forall|k: int|
        0 <= k < before.len() && (#[trigger] before[k]).id == w.id && (forall|j: int|
            0 <= j < k ==> (#[trigger] before[j]).id != w.id) implies {
        &&& p.set_focus == (before[k].focused != w.is_focused)
        &&& p.set_tooltip == (show_tooltips && before[k].tooltip != title_text(w))
        &&& p.set_icon == (before[k].icon != icon_text(w) || before[k].scale != scale)
    } by {
        let f = widget_from(before, w.id, 0)->0;
        if f < k {
            assert(before[f].id != w.id);
        } else if k < f {
            assert(before[k].id != w.id);
        }
    }
}

/// A window has the look of a preview where it comes in from another output; of what is
/// held where it is dragged along its own bar, and of what is away where it is dragged
/// from there to another output. All other buttons look plain, and stand in order.
pub proof fn law_look_follows_the_drag(
    plan: TaskbarPlan,
    filtered: Seq<WindowInfo>,
    windows: Seq<WindowInfo>,
    before: Seq<WidgetModel>,
    after: Seq<WidgetModel>,
    dragged: Option<GlobalDragState>,
    output: Option<String>,
    m: Map<Seq<char>, OutputInfo>,
    g: TaskbarGeometry,
    show_tooltips: bool,
    i: int,
)
    requires
        laid_out(plan, filtered, windows, before, after, dragged, output, m, g, show_tooltips),
        ids_differ(filtered),
        0 <= i < rows_of(windows, filtered, dragged, output, m, g).len(),
    ensures
        ({
            let w = rows_of(windows, filtered, dragged, output, m, g)[i];
            let p = plan.buttons@[i];
            let grabbed = dragged matches Some(d) && d.window_id == w.id && (match (d.source_output, output) {
                (Some(a), Some(b)) => a@ == b@,
                (None, None) => true,
                _ => false,
            });
            let comes_in = forall|k: int| 0 <= k < filtered.len() ==> (#[trigger] filtered[k]).id != w.id;
            &&& (p.look == DragLook::Preview) == comes_in
            &&& (p.look == DragLook::Held) == (!comes_in && !p.is_new && grabbed && dragged->0.is_dragging
                && dragged->0.target_output is None)
            &&& (p.look == DragLook::Away) == (!comes_in && !p.is_new && grabbed && dragged->0.is_dragging
                && dragged->0.target_output is Some)
            &&& !p.reorder ==> grabbed && !p.is_new
            &&& grabbed && !p.is_new ==> !p.reorder
        }),
{
    let rows = rows_of(windows, filtered, dragged, output, m, g);
    let w = rows[i];
    let p = plan.buttons@[i];
    match incoming(windows, filtered, dragged, output) {
        Some(k) => {
            let d = dragged->0;
            let slot = incoming_slot(filtered, d, output, m, g);
            state::lemma_window_from(windows, d.window_id, 0);
            state::lemma_window_from(filtered, d.window_id, 0);
            lemma_edge(g.children@, pointer_along(d, output, m, g), 0);
            if i == slot {
                assert(w == windows[k]);
            } else {
                let at = if i < slot {
                    i
                } else {
                    i - 1
                };
                assert(filtered[at] == w);
                assert(filtered[at].id != d.window_id);
            }
        },
        None => {
            assert(filtered[i] == w);
        },
    }
}

/// The buttons that go are those of windows that are no longer in the row.
pub proof fn law_buttons_of_lost_windows_go(
    plan: TaskbarPlan,
    filtered: Seq<WindowInfo>,
    windows: Seq<WindowInfo>,
    before: Seq<WidgetModel>,
    after: Seq<WidgetModel>,
    dragged: Option<GlobalDragState>,
    output: Option<String>,
    m: Map<Seq<char>, OutputInfo>,
    g: TaskbarGeometry,
    show_tooltips: bool,
    id: u64,
)
    requires
        laid_out(plan, filtered, windows, before, after, dragged, output, m, g, show_tooltips),
    ensures
        plan.removed@.contains(id) == ((exists|k: int| 0 <= k < before.len() && (#[trigger] before[k]).id == id)
            && forall|i: int|
            0 <= i < rows_of(windows, filtered, dragged, output, m, g).len() ==> (#[trigger] rows_of(
                windows,
                filtered,
                dragged,
                output,
                m,
                g,
            )[i]).id != id),
{
    let rows = rows_of(windows, filtered, dragged, output, m, g);
    let lost = |w: WidgetModel| !has_id(rows, w.id);
    let gone = dropped(before, rows);
    state::lemma_window_from(rows, id, 0);
    if plan.removed@.contains(id) {
        let i = choose|i: int| 0 <= i < plan.removed@.len() && plan.removed@[i] == id;
        assert(gone[i].id == id);
        before.lemma_filter_pred(lost, i);
        assert(gone.contains(gone[i]));
        before.lemma_filter_contains_rev(lost, gone[i]);
        let k = choose|k: int| 0 <= k < before.len() && before[k] == gone[i];
        assert(before[k].id == id);
    }
    if (exists|k: int| 0 <= k < before.len() && (#[trigger] before[k]).id == id) && !has_id(rows, id) {
        let k = choose|k: int| 0 <= k < before.len() && (#[trigger] before[k]).id == id;
        before.lemma_filter_contains(lost, k);
        let i = choose|i: int| 0 <= i < gone.len() && gone[i] == before[k];
        assert(plan.removed@[i] == id);
    }
}

/// Buttons stand for what they show one by one.
pub proof fn law_buttons_stand_in_their_order(v: Seq<WindowWidget>, i: int)
    requires
        0 <= i < v.len(),
    ensures
        models(v).len() == v.len(),
        models(v)[i] == v[i].model(),
{
}

} // verus!
