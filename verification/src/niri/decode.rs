//! Reading the compositor's JSON: windows, workspaces, outputs and events.
use vstd::prelude::*;

use crate::json;
use crate::json::{Json, JsonModel};
use crate::names::NameMap;
use crate::niri::model;
use crate::niri::model::{
    truncate_opt, Event, LogicalOutput, OutputInfo, WindowInfo, WindowLayout, WorkspaceInfo,
};
use crate::text;

verus! {

/// What a `WorkspaceInfo` says.
pub ghost struct WorkspaceModel {
    pub id: int,
    pub output: Option<Seq<char>>,
    pub is_active: bool,
    pub is_focused: bool,
}

/// What a `WindowInfo` says.
pub ghost struct WindowModel {
    pub id: int,
    pub title: Option<Seq<char>>,
    pub app_id: Option<Seq<char>>,
    pub workspace_id: Option<int>,
    pub is_focused: bool,
    pub layout: Option<LayoutModel>,
}

/// What a `WindowLayout` says.
pub ghost struct LayoutModel {
    pub pos: Option<(int, int)>,
}

/// What a `LogicalOutput` says.
pub ghost struct LogicalModel {
    pub x: int,
    pub y: int,
    pub width: int,
    pub height: int,
    pub scale: Option<Seq<char>>,
}

/// What an `OutputInfo` says.
pub ghost struct OutputModel {
    pub name: Option<Seq<char>>,
    pub make: Option<Seq<char>>,
    pub model: Option<Seq<char>>,
    pub physical_size: Option<(int, int)>,
    pub logical: Option<LogicalModel>,
}

/// What an `Event` says.
pub ghost enum EventModel {
    WorkspacesChanged(Seq<WorkspaceModel>),
    WorkspaceActivated(int, bool),
    OutputsChanged(Option<Map<Seq<char>, OutputModel>>),
    WindowsChanged(Seq<WindowModel>),
    WindowOpenedOrChanged(WindowModel),
    WindowClosed(int),
    WindowFocusChanged(Option<int>),
    WorkspaceActiveWindowChanged(int, Option<int>),
    WindowLayoutsChanged(Seq<(int, LayoutModel)>),
    Other,
}

/// A number as a mathematical one.
pub open spec fn opt_int(n: Option<u64>) -> Option<int> {
    match n {
        Some(v) => Some(v as int),
        None => None,
    }
}

/// What a workspace says.
pub open spec fn workspace_model(w: WorkspaceInfo) -> WorkspaceModel {
    WorkspaceModel {
        id: w.id as int,
        output: text::opt(w.output),
        is_active: w.is_active,
        is_focused: w.is_focused,
    }
}

/// What a layout says.
pub open spec fn layout_model(l: WindowLayout) -> LayoutModel {
    LayoutModel {
        pos: match l.pos_in_scrolling_layout {
            Some(p) => Some((p.0 as int, p.1 as int)),
            None => None,
        },
    }
}

/// What a window says.
pub open spec fn window_model(w: WindowInfo) -> WindowModel {
    WindowModel {
        id: w.id as int,
        title: text::opt(w.title),
        app_id: text::opt(w.app_id),
        workspace_id: opt_int(w.workspace_id),
        is_focused: w.is_focused,
        layout: match w.layout {
            Some(l) => Some(layout_model(l)),
            None => None,
        },
    }
}

/// What an output says.
pub open spec fn output_model(o: OutputInfo) -> OutputModel {
    OutputModel {
        name: text::opt(o.name),
        make: text::opt(o.make),
        model: text::opt(o.model),
        physical_size: match o.physical_size {
            Some(p) => Some((p.0 as int, p.1 as int)),
            None => None,
        },
        logical: match o.logical {
            Some(l) => Some(
                LogicalModel {
                    x: l.x as int,
                    y: l.y as int,
                    width: l.width as int,
                    height: l.height as int,
                    scale: text::opt(l.scale),
                },
            ),
            None => None,
        },
    }
}

/// What outputs say.
pub open spec fn outputs_model(m: Map<Seq<char>, OutputInfo>) -> Map<Seq<char>, OutputModel> {
    m.map_values(|o: OutputInfo| output_model(o))
}

/// What an event says.
pub open spec fn event_model(e: Event) -> EventModel {
    match e {
        Event::WorkspacesChanged { workspaces } => EventModel::WorkspacesChanged(
            workspaces@.map_values(|w: WorkspaceInfo| workspace_model(w)),
        ),
        Event::WorkspaceActivated { id, focused } => EventModel::WorkspaceActivated(id as int, focused),
        Event::OutputsChanged { outputs } => EventModel::OutputsChanged(
            match outputs {
                Some(o) => Some(outputs_model(o@)),
                None => None,
            },
        ),
        Event::WindowsChanged { windows } => EventModel::WindowsChanged(
            windows@.map_values(|w: WindowInfo| window_model(w)),
        ),
        Event::WindowOpenedOrChanged { window } => EventModel::WindowOpenedOrChanged(
            window_model(window),
        ),
        Event::WindowClosed { id } => EventModel::WindowClosed(id as int),
        Event::WindowFocusChanged { id } => EventModel::WindowFocusChanged(opt_int(id)),
        Event::WorkspaceActiveWindowChanged { workspace_id, active_window_id } =>
            EventModel::WorkspaceActiveWindowChanged(workspace_id as int, opt_int(active_window_id)),
        Event::WindowLayoutsChanged { changes } => EventModel::WindowLayoutsChanged(
            changes@.map_values(|c: (u64, WindowLayout)| (c.0 as int, layout_model(c.1))),
        ),
        Event::Other => EventModel::Other,
    }
}

/// A truth value; false where it is missing.
pub open spec fn flag(m: Option<JsonModel>) -> Option<bool> {
    match m {
        None => Some(false),
        Some(JsonModel::Bool(b)) => Some(b),
        _ => None,
    }
}

/// A whole number from `lo` to `hi`; zero where it is missing.
pub open spec fn whole(m: Option<JsonModel>, lo: int, hi: int) -> Option<int> {
    match m {
        None => Some(0int),
        Some(JsonModel::Number(n)) => if lo <= n <= hi {
            Some(n)
        } else {
            None
        },
        _ => None,
    }
}

/// A number that may be null or missing.
pub open spec fn opt_whole(m: Option<JsonModel>, hi: int) -> Option<Option<int>> {
    match m {
        None => Some(None),
        Some(JsonModel::Null) => Some(None),
        Some(JsonModel::Number(n)) => if 0 <= n <= hi {
            Some(Some(n))
        } else {
            None
        },
        _ => None,
    }
}

/// A text that may be null or missing.
pub open spec fn opt_text(m: Option<JsonModel>) -> Option<Option<Seq<char>>> {
    match m {
        None => Some(None),
        Some(JsonModel::Null) => Some(None),
        Some(JsonModel::Text(s)) => Some(Some(s)),
        _ => None,
    }
}

/// A title or application id, cut to the length that is kept.
pub open spec fn opt_kept(m: Option<JsonModel>) -> Option<Option<Seq<char>>> {
    match opt_text(m) {
        Some(Some(s)) => Some(Some(model::kept_text(s))),
        Some(None) => Some(None),
        None => None,
    }
}

/// A number of any kind, as it is printed again, that may be null or missing.
pub open spec fn opt_number(m: Option<JsonModel>) -> Option<Option<Seq<char>>> {
    match m {
        None => Some(None),
        Some(JsonModel::Null) => Some(None),
        Some(JsonModel::Number(n)) => Some(Some(text::signed_dec(n))),
        Some(JsonModel::Float(s)) => Some(Some(s)),
        _ => None,
    }
}

/// Two whole numbers from `lo` to `hi` that may be null or missing.
pub open spec fn opt_pair(m: Option<JsonModel>, lo: int, hi: int) -> Option<Option<(int, int)>> {
    match m {
        None => Some(None),
        Some(JsonModel::Null) => Some(None),
        Some(JsonModel::List(l)) => if l.len() == 2 && whole(Some(l[0]), lo, hi) is Some && whole(
            Some(l[1]),
            lo,
            hi,
        ) is Some {
            Some(Some((whole(Some(l[0]), lo, hi)->0, whole(Some(l[1]), lo, hi)->0)))
        } else {
            None
        },
        _ => None,
    }
}

/// The workspace that a value is.
pub open spec fn workspace_read(m: JsonModel) -> Option<WorkspaceModel> {
    if !json::is_structure(m, 4) {
        None
    } else {
        match (
            whole(json::field(m, "id"@, 0), 0, u64::MAX as int),
            opt_text(json::field(m, "output"@, 1)),
            flag(json::field(m, "is_active"@, 2)),
            flag(json::field(m, "is_focused"@, 3)),
        ) {
            (Some(id), Some(output), Some(is_active), Some(is_focused)) => Some(
                WorkspaceModel { id, output, is_active, is_focused },
            ),
            _ => None,
        }
    }
}

/// The layout that a value is.
pub open spec fn layout_read(m: JsonModel) -> Option<LayoutModel> {
    if !json::is_structure(m, 1) {
        None
    } else {
        match opt_pair(json::field(m, "pos_in_scrolling_layout"@, 0), 0, usize::MAX as int) {
            Some(pos) => Some(LayoutModel { pos }),
            None => None,
        }
    }
}

/// A layout that may be null or missing.
pub open spec fn opt_layout(m: Option<JsonModel>) -> Option<Option<LayoutModel>> {
    match m {
        None => Some(None),
        Some(JsonModel::Null) => Some(None),
        Some(v) => match layout_read(v) {
            Some(l) => Some(Some(l)),
            None => None,
        },
    }
}

/// The window that a value is.
pub open spec fn window_read(m: JsonModel) -> Option<WindowModel> {
    if !json::is_structure(m, 6) {
        None
    } else {
        match (
            whole(json::field(m, "id"@, 0), 0, u64::MAX as int),
            opt_kept(json::field(m, "title"@, 1)),
            opt_kept(json::field(m, "app_id"@, 2)),
            opt_whole(json::field(m, "workspace_id"@, 3), u64::MAX as int),
            flag(json::field(m, "is_focused"@, 4)),
            opt_layout(json::field(m, "layout"@, 5)),
        ) {
            (
                Some(id),
                Some(title),
                Some(app_id),
                Some(workspace_id),
                Some(is_focused),
                Some(layout),
            ) => Some(WindowModel { id, title, app_id, workspace_id, is_focused, layout }),
            _ => None,
        }
    }
}

/// The place of an output that a value is.
pub open spec fn logical_read(m: JsonModel) -> Option<LogicalModel> {
    if !json::is_structure(m, 5) {
        None
    } else {
        match (
            whole(json::field(m, "x"@, 0), i32::MIN as int, i32::MAX as int),
            whole(json::field(m, "y"@, 1), i32::MIN as int, i32::MAX as int),
            whole(json::field(m, "width"@, 2), 0, u32::MAX as int),
            whole(json::field(m, "height"@, 3), 0, u32::MAX as int),
            opt_number(json::field(m, "scale"@, 4)),
        ) {
            (Some(x), Some(y), Some(width), Some(height), Some(scale)) => Some(
                LogicalModel { x, y, width, height, scale },
            ),
            _ => None,
        }
    }
}

/// The place of an output, which may be null or missing.
pub open spec fn opt_logical(m: Option<JsonModel>) -> Option<Option<LogicalModel>> {
    match m {
        None => Some(None),
        Some(JsonModel::Null) => Some(None),
        Some(v) => match logical_read(v) {
            Some(l) => Some(Some(l)),
            None => None,
        },
    }
}

/// The output that a value is.
pub open spec fn output_read(m: JsonModel) -> Option<OutputModel> {
    if !json::is_structure(m, 5) {
        None
    } else {
        match (
            opt_text(json::field(m, "name"@, 0)),
            opt_text(json::field(m, "make"@, 1)),
            opt_text(json::field(m, "model"@, 2)),
            opt_pair(json::field(m, "physical_size"@, 3), i32::MIN as int, i32::MAX as int),
            opt_logical(json::field(m, "logical"@, 4)),
        ) {
            (Some(name), Some(make), Some(model), Some(physical_size), Some(logical)) => Some(
                OutputModel { name, make, model, physical_size, logical },
            ),
            _ => None,
        }
    }
}

/// The workspaces that a value is a list of.
pub open spec fn workspaces_read(m: JsonModel) -> Option<Seq<WorkspaceModel>> {
    match m {
        JsonModel::List(l) => if forall|i: int| 0 <= i < l.len() ==> workspace_read(#[trigger] l[i]) is Some {
            Some(Seq::new(l.len(), |i: int| workspace_read(l[i])->0))
        } else {
            None
        },
        _ => None,
    }
}

/// The windows that a value is a list of.
pub open spec fn windows_read(m: JsonModel) -> Option<Seq<WindowModel>> {
    match m {
        JsonModel::List(l) => if forall|i: int| 0 <= i < l.len() ==> window_read(#[trigger] l[i]) is Some {
            Some(Seq::new(l.len(), |i: int| window_read(l[i])->0))
        } else {
            None
        },
        _ => None,
    }
}

/// One change of a layout: the id of a window and its new layout.
pub open spec fn change_read(m: JsonModel) -> Option<(int, LayoutModel)> {
    match m {
        JsonModel::List(l) => if l.len() == 2 {
            match (whole(Some(l[0]), 0, u64::MAX as int), layout_read(l[1])) {
                (Some(id), Some(layout)) => Some((id, layout)),
                _ => None,
            }
        } else {
            None
        },
        _ => None,
    }
}

/// The changes of layouts that a value is a list of.
pub open spec fn changes_read(m: JsonModel) -> Option<Seq<(int, LayoutModel)>> {
    match m {
        JsonModel::List(l) => if forall|i: int| 0 <= i < l.len() ==> change_read(#[trigger] l[i]) is Some {
            Some(Seq::new(l.len(), |i: int| change_read(l[i])->0))
        } else {
            None
        },
        _ => None,
    }
}

/// The outputs that the entries of an object are.
pub open spec fn outputs_from(o: Seq<(Seq<char>, JsonModel)>) -> Option<Map<Seq<char>, OutputModel>>
    decreases o.len(),
{
    if o.len() == 0 {
        Some(Map::empty())
    } else {
        match (outputs_from(o.drop_last()), output_read(o.last().1)) {
            (Some(m), Some(out)) => Some(m.insert(o.last().0, out)),
            _ => None,
        }
    }
}

/// The outputs that a value is a table of.
pub open spec fn outputs_read(m: JsonModel) -> Option<Map<Seq<char>, OutputModel>> {
    match m {
        JsonModel::Object(o) => outputs_from(o),
        _ => None,
    }
}

/// Whether a field that may be left out can be missing: it can in an object, not
/// at its place in a list.
pub open spec fn may_lack(m: JsonModel, name: Seq<char>, i: int) -> bool {
    m is Object || json::field(m, name, i) is Some
}

/// The outputs of an `OutputsChanged` event.
pub open spec fn opt_outputs(m: Option<JsonModel>) -> Option<Option<Map<Seq<char>, OutputModel>>> {
    match m {
        None => Some(None),
        Some(JsonModel::Null) => Some(None),
        Some(v) => match outputs_read(v) {
            Some(o) => Some(Some(o)),
            None => None,
        },
    }
}

/// A whole number that has to be there.
pub open spec fn needed_whole(m: Option<JsonModel>, hi: int) -> Option<int> {
    if m is Some {
        whole(m, 0, hi)
    } else {
        None
    }
}

/// A truth value that has to be there.
pub open spec fn needed_flag(m: Option<JsonModel>) -> Option<bool> {
    if m is Some {
        flag(m)
    } else {
        None
    }
}

/// What one entry of an event means. The outer `None` is an entry that cannot be
/// read, the inner one an entry with a name that is not known.
pub open spec fn entry_read(name: Seq<char>, v: JsonModel) -> Option<Option<EventModel>> {
    if name == "WorkspacesChanged"@ {
        match json::field(v, "workspaces"@, 0) {
            Some(f) => if json::is_structure(v, 1) && workspaces_read(f) is Some {
                Some(Some(EventModel::WorkspacesChanged(workspaces_read(f)->0)))
            } else {
                None
            },
            None => None,
        }
    } else if name == "WorkspaceActivated"@ {
        match (
            needed_whole(json::field(v, "id"@, 0), u64::MAX as int),
            needed_flag(json::field(v, "focused"@, 1)),
        ) {
            (Some(id), Some(focused)) => if json::is_structure(v, 2) {
                Some(Some(EventModel::WorkspaceActivated(id, focused)))
            } else {
                None
            },
            _ => None,
        }
    } else if name == "OutputsChanged"@ {
        match opt_outputs(json::field(v, "outputs"@, 0)) {
            Some(o) => if json::is_structure(v, 1) && may_lack(v, "outputs"@, 0) {
                Some(Some(EventModel::OutputsChanged(o)))
            } else {
                None
            },
            None => None,
        }
    } else if name == "WindowsChanged"@ {
        match json::field(v, "windows"@, 0) {
            Some(f) => if json::is_structure(v, 1) && windows_read(f) is Some {
                Some(Some(EventModel::WindowsChanged(windows_read(f)->0)))
            } else {
                None
            },
            None => None,
        }
    } else if name == "WindowOpenedOrChanged"@ {
        match json::field(v, "window"@, 0) {
            Some(f) => if json::is_structure(v, 1) && window_read(f) is Some {
                Some(Some(EventModel::WindowOpenedOrChanged(window_read(f)->0)))
            } else {
                None
            },
            None => None,
        }
    } else if name == "WindowClosed"@ {
        match needed_whole(json::field(v, "id"@, 0), u64::MAX as int) {
            Some(id) => if json::is_structure(v, 1) {
                Some(Some(EventModel::WindowClosed(id)))
            } else {
                None
            },
            None => None,
        }
    } else if name == "WindowFocusChanged"@ {
        match opt_whole(json::field(v, "id"@, 0), u64::MAX as int) {
            Some(id) => if json::is_structure(v, 1) && may_lack(v, "id"@, 0) {
                Some(Some(EventModel::WindowFocusChanged(id)))
            } else {
                None
            },
            None => None,
        }
    } else if name == "WorkspaceActiveWindowChanged"@ {
        match (
            needed_whole(json::field(v, "workspace_id"@, 0), u64::MAX as int),
            opt_whole(json::field(v, "active_window_id"@, 1), u64::MAX as int),
        ) {
            (Some(ws), Some(win)) => if json::is_structure(v, 2) && may_lack(v, "active_window_id"@, 1) {
                Some(Some(EventModel::WorkspaceActiveWindowChanged(ws, win)))
            } else {
                None
            },
            _ => None,
        }
    } else if name == "WindowLayoutsChanged"@ {
        match json::field(v, "changes"@, 0) {
            Some(f) => if json::is_structure(v, 1) && changes_read(f) is Some {
                Some(Some(EventModel::WindowLayoutsChanged(changes_read(f)->0)))
            } else {
                None
            },
            None => None,
        }
    } else {
        Some(None)
    }
}

/// The event that the entries of an object are: the last entry with a known name
/// counts, and every entry with a known name has to be readable.
pub open spec fn event_from(o: Seq<(Seq<char>, JsonModel)>) -> Option<EventModel>
    decreases o.len(),
{
    if o.len() == 0 {
        Some(EventModel::Other)
    } else {
        match (event_from(o.drop_last()), entry_read(o.last().0, o.last().1)) {
            (Some(before), Some(Some(e))) => Some(e),
            (Some(before), Some(None)) => Some(before),
            _ => None,
        }
    }
}

/// The event that a value is.
pub open spec fn event_read(m: JsonModel) -> Option<EventModel> {
    match m {
        JsonModel::Object(o) => event_from(o),
        _ => None,
    }
}

/// What an optional value says.
pub open spec fn opt_model(j: Option<&Json>) -> Option<JsonModel> {
    match j {
        Some(v) => Some(v.model()),
        None => None,
    }
}

fn read_flag(j: Option<&Json>) -> (r: Option<bool>)
    ensures
        r == flag(opt_model(j)),
{
    match j {
        None => Some(false),
        Some(Json::Bool(b)) => Some(*b),
        _ => None,
    }
}

fn read_whole(j: Option<&Json>, lo: i64, hi: u64) -> (r: Option<i128>)
    ensures
        match r {
            Some(n) => whole(opt_model(j), lo as int, hi as int) == Some(n as int) && (j is Some ==> lo <= n <= hi)
                && (j is None ==> n == 0),
            None => whole(opt_model(j), lo as int, hi as int) is None,
        },
{
    let n: i128 = match j {
        None => return Some(0),
        Some(Json::Uint(n)) => *n as i128,
        Some(Json::Int(n)) => *n as i128,
        _ => return None,
    };
    if lo as i128 <= n && n <= hi as i128 {
        Some(n)
    } else {
        None
    }
}

fn read_opt_u64(j: Option<&Json>) -> (r: Option<Option<u64>>)
    ensures
        match r {
            Some(n) => opt_whole(opt_model(j), u64::MAX as int) == Some(opt_int(n)),
            None => opt_whole(opt_model(j), u64::MAX as int) is None,
        },
{
    match j {
        None => Some(None),
        Some(Json::Null) => Some(None),
        Some(Json::Uint(n)) => Some(Some(*n)),
        Some(Json::Int(n)) => {
            if *n >= 0 {
                Some(Some(*n as u64))
            } else {
                None
            }
        },
        _ => None,
    }
}

fn read_opt_text(j: Option<&Json>) -> (r: Option<Option<String>>)
    ensures
        match r {
            Some(s) => opt_text(opt_model(j)) == Some(text::opt(s)),
            None => opt_text(opt_model(j)) is None,
        },
{
    match j {
        None => Some(None),
        Some(Json::Null) => Some(None),
        Some(Json::Text(s)) => Some(Some(s.clone())),
        _ => None,
    }
}

fn read_opt_kept(j: Option<&Json>) -> (r: Option<Option<String>>)
    ensures
        match r {
            Some(s) => opt_kept(opt_model(j)) == Some(text::opt(s)),
            None => opt_kept(opt_model(j)) is None,
        },
{
    match read_opt_text(j) {
        Some(s) => Some(truncate_opt(s)),
        None => None,
    }
}

fn read_opt_number(j: Option<&Json>) -> (r: Option<Option<String>>)
    ensures
        match r {
            Some(s) => opt_number(opt_model(j)) == Some(text::opt(s)),
            None => opt_number(opt_model(j)) is None,
        },
{
    match j {
        None => Some(None),
        Some(Json::Null) => Some(None),
        Some(Json::Uint(n)) => Some(Some(text::decimal(*n))),
        Some(Json::Int(n)) => Some(Some(text::signed_decimal(*n))),
        Some(Json::Float(s)) => Some(Some(s.clone())),
        _ => None,
    }
}

fn read_opt_pair(j: Option<&Json>, lo: i64, hi: u64) -> (r: Option<Option<(i128, i128)>>)
    ensures
        match r {
            Some(Some(p)) => opt_pair(opt_model(j), lo as int, hi as int) == Some(
                Some((p.0 as int, p.1 as int)),
            ) && lo <= p.0 <= hi && lo <= p.1 <= hi,
            Some(None) => opt_pair(opt_model(j), lo as int, hi as int) == Some(None::<(int, int)>),
            None => opt_pair(opt_model(j), lo as int, hi as int) is None,
        },
{
    match j {
        None => Some(None),
        Some(Json::Null) => Some(None),
        Some(Json::List(l)) => {
            proof {
                json::lemma_model(*j->0);
            }
            if l.len() != 2 {
                return None;
            }
            assert(json::list_model(l@)[0] == l@[0].model());
            assert(json::list_model(l@)[1] == l@[1].model());
            match (read_whole(Some(&l[0]), lo, hi), read_whole(Some(&l[1]), lo, hi)) {
                (Some(a), Some(b)) => Some(Some((a, b))),
                _ => None,
            }
        },
        _ => None,
    }
}

/// Reads a workspace.
pub fn read_workspace(j: &Json) -> (r: Option<WorkspaceInfo>)
    ensures
        match r {
            Some(w) => workspace_read(j.model()) == Some(workspace_model(w)),
            None => workspace_read(j.model()) is None,
        },
{
    if !j.is_struct(4) {
        return None;
    }
    match (
        read_whole(j.get("id", 0), 0, u64::MAX),
        read_opt_text(j.get("output", 1)),
        read_flag(j.get("is_active", 2)),
        read_flag(j.get("is_focused", 3)),
    ) {
        (Some(id), Some(output), Some(is_active), Some(is_focused)) => Some(
            WorkspaceInfo { id: id as u64, output, is_active, is_focused },
        ),
        _ => None,
    }
}

fn read_layout(j: &Json) -> (r: Option<WindowLayout>)
    ensures
        match r {
            Some(l) => layout_read(j.model()) == Some(layout_model(l)),
            None => layout_read(j.model()) is None,
        },
{
    if !j.is_struct(1) {
        return None;
    }
    match read_opt_pair(j.get("pos_in_scrolling_layout", 0), 0, usize::MAX as u64) {
        Some(Some(p)) => Some(
            WindowLayout { pos_in_scrolling_layout: Some((p.0 as usize, p.1 as usize)) },
        ),
        Some(None) => Some(WindowLayout { pos_in_scrolling_layout: None }),
        None => None,
    }
}

fn read_opt_layout(j: Option<&Json>) -> (r: Option<Option<WindowLayout>>)
    ensures
        match r {
            Some(Some(l)) => opt_layout(opt_model(j)) == Some(Some(layout_model(l))),
            Some(None) => opt_layout(opt_model(j)) == Some(None::<LayoutModel>),
            None => opt_layout(opt_model(j)) is None,
        },
{
    match j {
        None => Some(None),
        Some(Json::Null) => Some(None),
        Some(v) => match read_layout(v) {
            Some(l) => Some(Some(l)),
            None => None,
        },
    }
}

/// Reads a window.
pub fn read_window(j: &Json) -> (r: Option<WindowInfo>)
    ensures
        match r {
            Some(w) => window_read(j.model()) == Some(window_model(w)),
            None => window_read(j.model()) is None,
        },
{
    if !j.is_struct(6) {
        return None;
    }
    match (
        read_whole(j.get("id", 0), 0, u64::MAX),
        read_opt_kept(j.get("title", 1)),
        read_opt_kept(j.get("app_id", 2)),
        read_opt_u64(j.get("workspace_id", 3)),
        read_flag(j.get("is_focused", 4)),
        read_opt_layout(j.get("layout", 5)),
    ) {
        (Some(id), Some(title), Some(app_id), Some(workspace_id), Some(is_focused), Some(layout)) => Some(
            WindowInfo { id: id as u64, title, app_id, workspace_id, is_focused, layout },
        ),
        _ => None,
    }
}

fn read_logical(j: &Json) -> (r: Option<LogicalOutput>)
    ensures
        match r {
            Some(l) => logical_read(j.model()) == Some(
                LogicalModel {
                    x: l.x as int,
                    y: l.y as int,
                    width: l.width as int,
                    height: l.height as int,
                    scale: text::opt(l.scale),
                },
            ),
            None => logical_read(j.model()) is None,
        },
{
    if !j.is_struct(5) {
        return None;
    }
    match (
        read_whole(j.get("x", 0), i32::MIN as i64, i32::MAX as u64),
        read_whole(j.get("y", 1), i32::MIN as i64, i32::MAX as u64),
        read_whole(j.get("width", 2), 0, u32::MAX as u64),
        read_whole(j.get("height", 3), 0, u32::MAX as u64),
        read_opt_number(j.get("scale", 4)),
    ) {
        (Some(x), Some(y), Some(width), Some(height), Some(scale)) => Some(
            LogicalOutput { x: x as i32, y: y as i32, width: width as u32, height: height as u32, scale },
        ),
        _ => None,
    }
}

fn read_opt_logical(j: Option<&Json>) -> (r: Option<Option<LogicalOutput>>)
    ensures
        match r {
            Some(Some(l)) => opt_logical(opt_model(j)) == Some(
                Some(
                    LogicalModel {
                        x: l.x as int,
                        y: l.y as int,
                        width: l.width as int,
                        height: l.height as int,
                        scale: text::opt(l.scale),
                    },
                ),
            ),
            Some(None) => opt_logical(opt_model(j)) == Some(None::<LogicalModel>),
            None => opt_logical(opt_model(j)) is None,
        },
{
    match j {
        None => Some(None),
        Some(Json::Null) => Some(None),
        Some(v) => match read_logical(v) {
            Some(l) => Some(Some(l)),
            None => None,
        },
    }
}

/// Reads an output.
pub fn read_output(j: &Json) -> (r: Option<OutputInfo>)
    ensures
        match r {
            Some(o) => output_read(j.model()) == Some(output_model(o)),
            None => output_read(j.model()) is None,
        },
{
    if !j.is_struct(5) {
        return None;
    }
    match (
        read_opt_text(j.get("name", 0)),
        read_opt_text(j.get("make", 1)),
        read_opt_text(j.get("model", 2)),
        read_opt_pair(j.get("physical_size", 3), i32::MIN as i64, i32::MAX as u64),
        read_opt_logical(j.get("logical", 4)),
    ) {
        (Some(name), Some(make), Some(model), Some(size), Some(logical)) => {
            let physical_size: Option<(i32, i32)> = match size {
                Some(p) => Some((p.0 as i32, p.1 as i32)),
                None => None,
            };
            Some(OutputInfo { name, make, model, physical_size, logical })
        },
        _ => None,
    }
}

/// Reads a list of workspaces.
pub fn read_workspaces(j: &Json) -> (r: Option<Vec<WorkspaceInfo>>)
    ensures
        match r {
            Some(v) => workspaces_read(j.model()) == Some(
                v@.map_values(|w: WorkspaceInfo| workspace_model(w)),
            ),
            None => workspaces_read(j.model()) is None,
        },
{
    proof {
        json::lemma_model(*j);
    }
    match j {
        Json::List(l) => {
            let ghost ms: Seq<JsonModel> = json::list_model(l@);
            let mut v: Vec<WorkspaceInfo> = Vec::new();
            let mut i: usize = 0;
            while i < l.len()
                invariant
                    i <= l@.len(),
                    ms == json::list_model(l@),
                    j.model() == JsonModel::List(ms),
                    v@.len() == i,
                    forall|k: int|
                        0 <= k < i ==> workspace_read(#[trigger] ms[k]) == Some(workspace_model(v@[k])),
                decreases l@.len() - i,
            {
                assert(ms[i as int] == l@[i as int].model());
                match read_workspace(&l[i]) {
                    Some(w) => v.push(w),
                    None => return None,
                }
                i = i + 1;
            }
            assert(workspaces_read(j.model())->0 =~= v@.map_values(|w: WorkspaceInfo| workspace_model(w)));
            Some(v)
        },
        _ => None,
    }
}

/// Reads a list of windows.
pub fn read_windows(j: &Json) -> (r: Option<Vec<WindowInfo>>)
    ensures
        match r {
            Some(v) => windows_read(j.model()) == Some(v@.map_values(|w: WindowInfo| window_model(w))),
            None => windows_read(j.model()) is None,
        },
{
    proof {
        json::lemma_model(*j);
    }
    match j {
        Json::List(l) => {
            let ghost ms: Seq<JsonModel> = json::list_model(l@);
            let mut v: Vec<WindowInfo> = Vec::new();
            let mut i: usize = 0;
            while i < l.len()
                invariant
                    i <= l@.len(),
                    ms == json::list_model(l@),
                    j.model() == JsonModel::List(ms),
                    v@.len() == i,
                    forall|k: int|
                        0 <= k < i ==> window_read(#[trigger] ms[k]) == Some(window_model(v@[k])),
                decreases l@.len() - i,
            {
                assert(ms[i as int] == l@[i as int].model());
                match read_window(&l[i]) {
                    Some(w) => v.push(w),
                    None => return None,
                }
                i = i + 1;
            }
            assert(windows_read(j.model())->0 =~= v@.map_values(|w: WindowInfo| window_model(w)));
            Some(v)
        },
        _ => None,
    }
}

fn read_change(j: &Json) -> (r: Option<(u64, WindowLayout)>)
    ensures
        match r {
            Some(c) => change_read(j.model()) == Some((c.0 as int, layout_model(c.1))),
            None => change_read(j.model()) is None,
        },
{
    proof {
        json::lemma_model(*j);
    }
    match j {
        Json::List(l) => {
            if l.len() != 2 {
                return None;
            }
            assert(json::list_model(l@)[0] == l@[0].model());
            assert(json::list_model(l@)[1] == l@[1].model());
            match (read_whole(Some(&l[0]), 0, u64::MAX), read_layout(&l[1])) {
                (Some(id), Some(layout)) => Some((id as u64, layout)),
                _ => None,
            }
        },
        _ => None,
    }
}

fn read_changes(j: &Json) -> (r: Option<Vec<(u64, WindowLayout)>>)
    ensures
        match r {
            Some(v) => changes_read(j.model()) == Some(
                v@.map_values(|c: (u64, WindowLayout)| (c.0 as int, layout_model(c.1))),
            ),
            None => changes_read(j.model()) is None,
        },
{
    proof {
        json::lemma_model(*j);
    }
    match j {
        Json::List(l) => {
            let ghost ms: Seq<JsonModel> = json::list_model(l@);
            let mut v: Vec<(u64, WindowLayout)> = Vec::new();
            let mut i: usize = 0;
            while i < l.len()
                invariant
                    i <= l@.len(),
                    ms == json::list_model(l@),
                    j.model() == JsonModel::List(ms),
                    v@.len() == i,
                    forall|k: int|
                        0 <= k < i ==> change_read(#[trigger] ms[k]) == Some(
                            (v@[k].0 as int, layout_model(v@[k].1)),
                        ),
                decreases l@.len() - i,
            {
                assert(ms[i as int] == l@[i as int].model());
                match read_change(&l[i]) {
                    Some(c) => v.push(c),
                    None => return None,
                }
                i = i + 1;
            }
            assert(changes_read(j.model())->0 =~= v@.map_values(
                |c: (u64, WindowLayout)| (c.0 as int, layout_model(c.1)),
            ));
            Some(v)
        },
        _ => None,
    }
}

/// An entry that cannot be read spoils the whole table.
proof fn lemma_outputs_bad(o: Seq<(Seq<char>, JsonModel)>, k: int)
    requires
        0 <= k <= o.len(),
        outputs_from(o.take(k)) is None,
    ensures
        outputs_from(o) is None,
    decreases o.len() - k,
{
    if k < o.len() {
        assert(o.take(k + 1).drop_last() =~= o.take(k));
        lemma_outputs_bad(o, k + 1);
    } else {
        assert(o.take(k) =~= o);
    }
}

/// Reads a table of outputs.
pub fn read_outputs(j: &Json) -> (r: Option<NameMap<OutputInfo>>)
    ensures
        match r {
            Some(m) => outputs_read(j.model()) == Some(outputs_model(m@)),
            None => outputs_read(j.model()) is None,
        },
{
    proof {
        json::lemma_model(*j);
    }
    match j {
        Json::Object(o) => {
            let ghost ms: Seq<(Seq<char>, JsonModel)> = json::object_model(o@);
            let mut m: NameMap<OutputInfo> = NameMap::new();
            let mut i: usize = 0;
            assert(ms.take(0) =~= Seq::empty());
            assert(outputs_model(m@) =~= Map::empty());
            while i < o.len()
                invariant
                    i <= o@.len(),
                    ms == json::object_model(o@),
                    j.model() == JsonModel::Object(ms),
                    outputs_from(ms.take(i as int)) == Some(outputs_model(m@)),
                decreases o@.len() - i,
            {
                assert(ms[i as int] == (o@[i as int].0@, o@[i as int].1.model()));
                assert(ms.take(i + 1).drop_last() =~= ms.take(i as int));
                assert(ms.take(i + 1).last() == ms[i as int]);
                let ghost before: Map<Seq<char>, OutputInfo> = m@;
                match read_output(&o[i].1) {
                    Some(out) => {
                        m.insert(o[i].0.clone(), out);
                        assert(outputs_model(m@) =~= outputs_model(before).insert(
                            o@[i as int].0@,
                            output_model(out),
                        ));
                    },
                    None => {
                        proof {
                            lemma_outputs_bad(ms, i + 1);
                        }
                        return None;
                    },
                }
                i = i + 1;
            }
            assert(ms.take(ms.len() as int) =~= ms);
            Some(m)
        },
        _ => None,
    }
}

fn read_opt_outputs(j: Option<&Json>) -> (r: Option<Option<NameMap<OutputInfo>>>)
    ensures
        match r {
            Some(Some(m)) => opt_outputs(opt_model(j)) == Some(Some(outputs_model(m@))),
            Some(None) => opt_outputs(opt_model(j)) == Some(None::<Map<Seq<char>, OutputModel>>),
            None => opt_outputs(opt_model(j)) is None,
        },
{
    match j {
        None => Some(None),
        Some(Json::Null) => Some(None),
        Some(v) => match read_outputs(v) {
            Some(m) => Some(Some(m)),
            None => None,
        },
    }
}

fn is_object(j: &Json) -> (r: bool)
    ensures
        r == (j.model() is Object),
{
    matches!(j, Json::Object(_))
}

/// What an entry of an event was read as.
enum Entry {
    Unknown,
    Known(Event),
    Bad,
}

/// `e` is what `entry_read` says of an entry.
spec fn is_entry(e: Entry, name: Seq<char>, v: JsonModel) -> bool {
    match e {
        Entry::Unknown => entry_read(name, v) == Some(None::<EventModel>),
        Entry::Known(ev) => entry_read(name, v) == Some(Some(event_model(ev))),
        Entry::Bad => entry_read(name, v) is None,
    }
}

fn needed_u64(j: Option<&Json>) -> (r: Option<u64>)
    ensures
        match r {
            Some(n) => needed_whole(opt_model(j), u64::MAX as int) == Some(n as int),
            None => needed_whole(opt_model(j), u64::MAX as int) is None,
        },
{
    if j.is_none() {
        return None;
    }
    match read_whole(j, 0, u64::MAX) {
        Some(n) => Some(n as u64),
        None => None,
    }
}

fn read_entry(name: &str, v: &Json) -> (e: Entry)
    ensures
        is_entry(e, name@, v.model()),
{
    if text::same(name, "WorkspacesChanged") {
        if let Some(f) = v.get("workspaces", 0) {
            if v.is_struct(1) {
                if let Some(workspaces) = read_workspaces(f) {
                    return Entry::Known(Event::WorkspacesChanged { workspaces });
                }
            }
        }
        Entry::Bad
    } else if text::same(name, "WorkspaceActivated") {
        match (needed_u64(v.get("id", 0)), v.get("focused", 1)) {
            (Some(id), Some(f)) => match read_flag(Some(f)) {
                Some(focused) => {
                    if v.is_struct(2) {
                        Entry::Known(Event::WorkspaceActivated { id, focused })
                    } else {
                        Entry::Bad
                    }
                },
                None => Entry::Bad,
            },
            _ => Entry::Bad,
        }
    } else if text::same(name, "OutputsChanged") {
        let f: Option<&Json> = v.get("outputs", 0);
        match read_opt_outputs(f) {
            Some(outputs) => {
                if v.is_struct(1) && (is_object(v) || f.is_some()) {
                    Entry::Known(Event::OutputsChanged { outputs })
                } else {
                    Entry::Bad
                }
            },
            None => Entry::Bad,
        }
    } else if text::same(name, "WindowsChanged") {
        if let Some(f) = v.get("windows", 0) {
            if v.is_struct(1) {
                if let Some(windows) = read_windows(f) {
                    return Entry::Known(Event::WindowsChanged { windows });
                }
            }
        }
        Entry::Bad
    } else if text::same(name, "WindowOpenedOrChanged") {
        if let Some(f) = v.get("window", 0) {
            if v.is_struct(1) {
                if let Some(window) = read_window(f) {
                    return Entry::Known(Event::WindowOpenedOrChanged { window });
                }
            }
        }
        Entry::Bad
    } else if text::same(name, "WindowClosed") {
        match needed_u64(v.get("id", 0)) {
            Some(id) => {
                if v.is_struct(1) {
                    Entry::Known(Event::WindowClosed { id })
                } else {
                    Entry::Bad
                }
            },
            None => Entry::Bad,
        }
    } else if text::same(name, "WindowFocusChanged") {
        let f: Option<&Json> = v.get("id", 0);
        match read_opt_u64(f) {
            Some(id) => {
                if v.is_struct(1) && (is_object(v) || f.is_some()) {
                    Entry::Known(Event::WindowFocusChanged { id })
                } else {
                    Entry::Bad
                }
            },
            None => Entry::Bad,
        }
    } else if text::same(name, "WorkspaceActiveWindowChanged") {
        let f: Option<&Json> = v.get("active_window_id", 1);
        match (needed_u64(v.get("workspace_id", 0)), read_opt_u64(f)) {
            (Some(workspace_id), Some(active_window_id)) => {
                if v.is_struct(2) && (is_object(v) || f.is_some()) {
                    Entry::Known(
                        Event::WorkspaceActiveWindowChanged { workspace_id, active_window_id },
                    )
                } else {
                    Entry::Bad
                }
            },
            _ => Entry::Bad,
        }
    } else if text::same(name, "WindowLayoutsChanged") {
        if let Some(f) = v.get("changes", 0) {
            if v.is_struct(1) {
                if let Some(changes) = read_changes(f) {
                    return Entry::Known(Event::WindowLayoutsChanged { changes });
                }
            }
        }
        Entry::Bad
    } else {
        Entry::Unknown
    }
}

/// An entry that cannot be read spoils the whole event.
proof fn lemma_event_bad(o: Seq<(Seq<char>, JsonModel)>, k: int)
    requires
        0 <= k <= o.len(),
        event_from(o.take(k)) is None,
    ensures
        event_from(o) is None,
    decreases o.len() - k,
{
    if k < o.len() {
        assert(o.take(k + 1).drop_last() =~= o.take(k));
        lemma_event_bad(o, k + 1);
    } else {
        assert(o.take(k) =~= o);
    }
}

/// Reads an event.
pub fn read_event(j: &Json) -> (r: Option<Event>)
    ensures
        match r {
            Some(e) => event_read(j.model()) == Some(event_model(e)),
            None => event_read(j.model()) is None,
        },
{
    proof {
        json::lemma_model(*j);
    }
    match j {
        Json::Object(o) => {
            let ghost ms: Seq<(Seq<char>, JsonModel)> = json::object_model(o@);
            let mut result: Event = Event::Other;
            let mut i: usize = 0;
            assert(ms.take(0) =~= Seq::empty());
            while i < o.len()
                invariant
                    i <= o@.len(),
                    ms == json::object_model(o@),
                    j.model() == JsonModel::Object(ms),
                    event_from(ms.take(i as int)) == Some(event_model(result)),
                decreases o@.len() - i,
            {
                assert(ms[i as int] == (o@[i as int].0@, o@[i as int].1.model()));
                assert(ms.take(i + 1).drop_last() =~= ms.take(i as int));
                assert(ms.take(i + 1).last() == ms[i as int]);
                match read_entry(o[i].0.as_str(), &o[i].1) {
                    Entry::Unknown => {},
                    Entry::Known(e) => {
                        result = e;
                    },
                    Entry::Bad => {
                        proof {
                            lemma_event_bad(ms, i + 1);
                        }
                        return None;
                    },
                }
                i = i + 1;
            }
            assert(ms.take(ms.len() as int) =~= ms);
            Some(result)
        },
        _ => None,
    }
}

// ---------------------------------------------------------------------------
// What is read of a value
// ---------------------------------------------------------------------------

/// A truth value, or nothing.
pub open spec fn fits_flag(v: Option<JsonModel>) -> bool {
    v matches Some(f) ==> f is Bool
}

/// A whole number between two bounds, or nothing.
pub open spec fn fits_whole(v: Option<JsonModel>, lo: int, hi: int) -> bool {
    v matches Some(f) ==> (f matches JsonModel::Number(n) && lo <= n <= hi)
}

/// Null, or nothing.
pub open spec fn is_nothing(v: Option<JsonModel>) -> bool {
    v matches Some(f) ==> f is Null
}

/// A text, null or nothing.
pub open spec fn fits_text(v: Option<JsonModel>) -> bool {
    is_nothing(v) || v->0 is Text
}

/// A number, null or nothing.
pub open spec fn fits_id(v: Option<JsonModel>) -> bool {
    is_nothing(v) || fits_whole(v, 0, u64::MAX as int)
}

/// Two numbers, null or nothing.
pub open spec fn fits_pair(v: Option<JsonModel>, lo: int, hi: int) -> bool {
    is_nothing(v) || (v->0 matches JsonModel::List(l) && l.len() == 2 && fits_whole(Some(l[0]), lo, hi)
        && fits_whole(Some(l[1]), lo, hi))
}

/// A text is the one that a value is; there is none where the value is null or missing.
pub open spec fn is_text(s: Option<String>, v: Option<JsonModel>) -> bool {
    match s {
        Some(t) => v == Some(JsonModel::Text(t@)),
        None => is_nothing(v),
    }
}

/// A text is the front of the one that a value is, or all of it.
pub open spec fn is_kept(s: Option<String>, v: Option<JsonModel>) -> bool {
    match s {
        Some(t) => v matches Some(JsonModel::Text(u)) && t@ == model::kept_text(u),
        None => is_nothing(v),
    }
}

/// A number is the one that a value is; there is none where the value is null or missing.
pub open spec fn is_id(n: Option<u64>, v: Option<JsonModel>) -> bool {
    match n {
        Some(k) => v == Some(JsonModel::Number(k as int)),
        None => is_nothing(v),
    }
}

/// A truth value is the one that a value is, and false where the value is missing.
pub open spec fn is_flag(b: bool, v: Option<JsonModel>) -> bool {
    match v {
        Some(f) => f == JsonModel::Bool(b),
        None => !b,
    }
}

/// A number is the one that a value is, and zero where the value is missing.
pub open spec fn is_number(n: int, v: Option<JsonModel>) -> bool {
    match v {
        Some(f) => f == JsonModel::Number(n),
        None => n == 0,
    }
}

/// A value that is no structure of at most `n` fields.
pub open spec fn is_no_structure(m: JsonModel, n: int) -> bool {
    !(m is Object) && !(m matches JsonModel::List(l) && l.len() <= n)
}

/// Each field of a workspace is what stands under its own name, whatever stands under the
/// others. A workspace is read if and only if what is said of its fields has their types.
pub proof fn law_workspace_is_what_its_fields_say(
    m: JsonModel,
    w: WorkspaceInfo,
    id: Option<JsonModel>,
    output: Option<JsonModel>,
    active: Option<JsonModel>,
    focused: Option<JsonModel>,
)
    requires
        json::says(m, "id"@, 0, id),
        json::says(m, "output"@, 1, output),
        json::says(m, "is_active"@, 2, active),
        json::says(m, "is_focused"@, 3, focused),
    ensures
        workspace_read(m) is Some <==> !is_no_structure(m, 4) && fits_whole(id, 0, u64::MAX as int) && fits_text(
            output,
        ) && fits_flag(active) && fits_flag(focused),
        workspace_read(m) == Some(workspace_model(w)) ==> {
            &&& is_number(w.id as int, id)
            &&& is_text(w.output, output)
            &&& is_flag(w.is_active, active)
            &&& is_flag(w.is_focused, focused)
        },
{
    json::law_field_is_what_is_said(m, "id"@, 0, id);
    json::law_field_is_what_is_said(m, "output"@, 1, output);
    json::law_field_is_what_is_said(m, "is_active"@, 2, active);
    json::law_field_is_what_is_said(m, "is_focused"@, 3, focused);
}

/// A workspace is active if and only if true stands under the name `is_active`, for an
/// object that holds each of its names once, with values of their types: whatever the
/// others are.
pub proof fn law_active_is_read_from_its_name(
    o: Seq<(Seq<char>, JsonModel)>,
    w: WorkspaceInfo,
    id: u64,
    output: Seq<char>,
    active: bool,
    focused: bool,
)
    requires
        json::holds_once(o, "id"@, JsonModel::Number(id as int)),
        json::holds_once(o, "output"@, JsonModel::Text(output)),
        json::holds_once(o, "is_active"@, JsonModel::Bool(active)),
        json::holds_once(o, "is_focused"@, JsonModel::Bool(focused)),
    ensures
        workspace_read(JsonModel::Object(o)) is Some,
        workspace_read(JsonModel::Object(o)) == Some(workspace_model(w)) ==> w.id == id && w.output is Some
            && w.output->0@ == output && w.is_active == active && w.is_focused == focused,
{
    law_workspace_is_what_its_fields_say(
        JsonModel::Object(o),
        w,
        Some(JsonModel::Number(id as int)),
        Some(JsonModel::Text(output)),
        Some(JsonModel::Bool(active)),
        Some(JsonModel::Bool(focused)),
    );
}

/// A layout is what stands under its name: column and tile, in this order.
pub proof fn law_layout_is_what_its_field_says(m: JsonModel, l: WindowLayout, pos: Option<JsonModel>)
    requires
        json::says(m, "pos_in_scrolling_layout"@, 0, pos),
    ensures
        layout_read(m) is Some <==> !is_no_structure(m, 1) && fits_pair(pos, 0, usize::MAX as int),
        layout_read(m) == Some(layout_model(l)) ==> match l.pos_in_scrolling_layout {
            Some(p) => pos matches Some(JsonModel::List(s)) && s =~= seq![
                JsonModel::Number(p.0 as int),
                JsonModel::Number(p.1 as int),
            ],
            None => is_nothing(pos),
        },
{
    json::law_field_is_what_is_said(m, "pos_in_scrolling_layout"@, 0, pos);
}

/// Each field of a window is what stands under its own name, whatever stands under the
/// others. A window is read if and only if what is said of its fields has their types.
pub proof fn law_window_is_what_its_fields_say(
    m: JsonModel,
    w: WindowInfo,
    id: Option<JsonModel>,
    title: Option<JsonModel>,
    app_id: Option<JsonModel>,
    workspace_id: Option<JsonModel>,
    focused: Option<JsonModel>,
    layout: Option<JsonModel>,
)
    requires
        json::says(m, "id"@, 0, id),
        json::says(m, "title"@, 1, title),
        json::says(m, "app_id"@, 2, app_id),
        json::says(m, "workspace_id"@, 3, workspace_id),
        json::says(m, "is_focused"@, 4, focused),
        json::says(m, "layout"@, 5, layout),
    ensures
        window_read(m) is Some <==> !is_no_structure(m, 6) && fits_whole(id, 0, u64::MAX as int) && fits_text(title)
            && fits_text(app_id) && fits_id(workspace_id) && fits_flag(focused) && (is_nothing(layout) || layout_read(
            layout->0,
        ) is Some),
        window_read(m) == Some(window_model(w)) ==> {
            &&& is_number(w.id as int, id)
            &&& is_kept(w.title, title)
            &&& is_kept(w.app_id, app_id)
            &&& is_id(w.workspace_id, workspace_id)
            &&& is_flag(w.is_focused, focused)
            &&& match w.layout {
                Some(l) => layout is Some && layout_read(layout->0) == Some(layout_model(l)),
                None => is_nothing(layout),
            }
        },
{
    json::law_field_is_what_is_said(m, "id"@, 0, id);
    json::law_field_is_what_is_said(m, "title"@, 1, title);
    json::law_field_is_what_is_said(m, "app_id"@, 2, app_id);
    json::law_field_is_what_is_said(m, "workspace_id"@, 3, workspace_id);
    json::law_field_is_what_is_said(m, "is_focused"@, 4, focused);
    json::law_field_is_what_is_said(m, "layout"@, 5, layout);
    if is_nothing(layout) {
        assert(opt_layout(layout) == Some(None::<LayoutModel>));
    }
}

/// Each number of the place of an output is what stands under its own name, and the scale is
/// the number that stands under its name, as it is printed.
pub proof fn law_place_is_what_its_fields_say(
    m: JsonModel,
    o: OutputInfo,
    x: Option<JsonModel>,
    y: Option<JsonModel>,
    width: Option<JsonModel>,
    height: Option<JsonModel>,
    scale: Option<JsonModel>,
)
    requires
        json::says(m, "x"@, 0, x),
        json::says(m, "y"@, 1, y),
        json::says(m, "width"@, 2, width),
        json::says(m, "height"@, 3, height),
        json::says(m, "scale"@, 4, scale),
    ensures
        logical_read(m) is Some <==> !is_no_structure(m, 5) && fits_whole(x, i32::MIN as int, i32::MAX as int)
            && fits_whole(y, i32::MIN as int, i32::MAX as int) && fits_whole(width, 0, u32::MAX as int) && fits_whole(
            height,
            0,
            u32::MAX as int,
        ) && (is_nothing(scale) || scale->0 is Number || scale->0 is Float),
        logical_read(m) is Some && output_model(o).logical == logical_read(m) ==> {
            &&& o.logical is Some
            &&& is_number(o.logical->0.x as int, x)
            &&& is_number(o.logical->0.y as int, y)
            &&& is_number(o.logical->0.width as int, width)
            &&& is_number(o.logical->0.height as int, height)
            &&& match o.logical->0.scale {
                Some(s) => match scale {
                    Some(JsonModel::Number(n)) => s@ == text::signed_dec(n),
                    Some(JsonModel::Float(t)) => s@ == t,
                    _ => false,
                },
                None => is_nothing(scale),
            }
        },
{
    json::law_field_is_what_is_said(m, "x"@, 0, x);
    json::law_field_is_what_is_said(m, "y"@, 1, y);
    json::law_field_is_what_is_said(m, "width"@, 2, width);
    json::law_field_is_what_is_said(m, "height"@, 3, height);
    json::law_field_is_what_is_said(m, "scale"@, 4, scale);
}

/// Each field of an output is what stands under its own name, whatever stands under the
/// others. An output is read if and only if what is said of its fields has their types.
pub proof fn law_output_is_what_its_fields_say(
    m: JsonModel,
    o: OutputInfo,
    name: Option<JsonModel>,
    make: Option<JsonModel>,
    model: Option<JsonModel>,
    size: Option<JsonModel>,
    logical: Option<JsonModel>,
)
    requires
        json::says(m, "name"@, 0, name),
        json::says(m, "make"@, 1, make),
        json::says(m, "model"@, 2, model),
        json::says(m, "physical_size"@, 3, size),
        json::says(m, "logical"@, 4, logical),
    ensures
        output_read(m) is Some <==> !is_no_structure(m, 5) && fits_text(name) && fits_text(make) && fits_text(model)
            && fits_pair(size, i32::MIN as int, i32::MAX as int) && (is_nothing(logical) || logical_read(
            logical->0,
        ) is Some),
        output_read(m) == Some(output_model(o)) ==> {
            &&& is_text(o.name, name)
            &&& is_text(o.make, make)
            &&& is_text(o.model, model)
            &&& match o.physical_size {
                Some(p) => size matches Some(JsonModel::List(s)) && s =~= seq![
                    JsonModel::Number(p.0 as int),
                    JsonModel::Number(p.1 as int),
                ],
                None => is_nothing(size),
            }
            &&& match o.logical {
                Some(l) => logical is Some && logical_read(logical->0) == output_model(o).logical,
                None => is_nothing(logical),
            }
        },
{
    json::law_field_is_what_is_said(m, "name"@, 0, name);
    json::law_field_is_what_is_said(m, "make"@, 1, make);
    json::law_field_is_what_is_said(m, "model"@, 2, model);
    json::law_field_is_what_is_said(m, "physical_size"@, 3, size);
    json::law_field_is_what_is_said(m, "logical"@, 4, logical);
    if is_nothing(logical) {
        assert(opt_logical(logical) == Some(None::<LogicalModel>));
    }
}

/// What is neither an object nor a list is no workspace, window or output, and no event.
pub proof fn law_other_values_are_nothing(m: JsonModel)
    requires
        !(m is Object),
    ensures
        !(m is List) ==> workspace_read(m) is None && window_read(m) is None && output_read(m) is None
            && layout_read(m) is None && logical_read(m) is None,
        !(m is List) ==> workspaces_read(m) is None && windows_read(m) is None && changes_read(m) is None,
        outputs_read(m) is None,
        event_read(m) is None,
{
}

/// A name that stands twice makes a workspace, window or output unreadable.
pub proof fn law_twice_is_refused(o: Seq<(Seq<char>, JsonModel)>, name: Seq<char>)
    requires
        json::holds_twice(o, name),
    ensures
        name == "id"@ || name == "output"@ || name == "is_active"@ || name == "is_focused"@ ==> workspace_read(
            JsonModel::Object(o),
        ) is None,
        name == "id"@ || name == "title"@ || name == "app_id"@ || name == "workspace_id"@ || name == "is_focused"@
            || name == "layout"@ ==> window_read(JsonModel::Object(o)) is None,
        name == "name"@ || name == "make"@ || name == "model"@ || name == "physical_size"@ || name == "logical"@
            ==> output_read(JsonModel::Object(o)) is None,
{
    let (i, j) = choose|i: int, j: int|
        0 <= i < j < o.len() && (#[trigger] o[i]).0 == name && (#[trigger] o[j]).0 == name;
    json::law_field_twice_is_unreadable(o, name, i, j);
}

/// The lists of workspaces, windows and changes of layouts are read only where each value
/// can be read.
pub proof fn law_lists_are_read_whole(l: Seq<JsonModel>)
    ensures
        workspaces_read(JsonModel::List(l)) is Some <==> forall|i: int|
            0 <= i < l.len() ==> workspace_read(#[trigger] l[i]) is Some,
        windows_read(JsonModel::List(l)) is Some <==> forall|i: int|
            0 <= i < l.len() ==> window_read(#[trigger] l[i]) is Some,
        changes_read(JsonModel::List(l)) is Some <==> forall|i: int|
            0 <= i < l.len() ==> change_read(#[trigger] l[i]) is Some,
        changes_read(JsonModel::List(l)) matches Some(r) ==> r.len() == l.len() && forall|i: int|
            0 <= i < l.len() ==> change_read(#[trigger] l[i]) == Some(r[i]),
{
}

/// The workspaces of a list are read value by value, in their order.
pub proof fn law_workspaces_keep_their_order(l: Seq<JsonModel>, ws: Seq<WorkspaceInfo>, i: int)
    requires
        workspaces_read(JsonModel::List(l)) == Some(ws.map_values(|w: WorkspaceInfo| workspace_model(w))),
        0 <= i < l.len(),
    ensures
        ws.len() == l.len(),
        workspace_read(l[i]) == Some(workspace_model(ws[i])),
{
    let r = workspaces_read(JsonModel::List(l))->0;
    assert(ws.map_values(|w: WorkspaceInfo| workspace_model(w)).len() == ws.len());
    assert(r[i] == workspace_model(ws[i]));
}

/// The windows of a list are read value by value, in their order.
pub proof fn law_windows_keep_their_order(l: Seq<JsonModel>, ws: Seq<WindowInfo>, i: int)
    requires
        windows_read(JsonModel::List(l)) == Some(ws.map_values(|w: WindowInfo| window_model(w))),
        0 <= i < l.len(),
    ensures
        ws.len() == l.len(),
        window_read(l[i]) == Some(window_model(ws[i])),
{
    let r = windows_read(JsonModel::List(l))->0;
    assert(ws.map_values(|w: WindowInfo| window_model(w)).len() == ws.len());
    assert(r[i] == window_model(ws[i]));
}

/// A change of a layout is a pair of the window's id and its layout.
pub proof fn law_change_is_a_pair(l: Seq<JsonModel>)
    ensures
        change_read(JsonModel::List(l)) is Some <==> l.len() == 2 && fits_whole(Some(l[0]), 0, u64::MAX as int)
            && layout_read(l[1]) is Some,
        change_read(JsonModel::List(l)) matches Some(c) ==> l[0] == JsonModel::Number(c.0) && layout_read(l[1])
            == Some(c.1),
{
}

proof fn lemma_outputs_from(o: Seq<(Seq<char>, JsonModel)>, k: Seq<char>, i: int)
    requires
        0 <= i < o.len(),
        o[i].0 == k,
        forall|j: int| i < j < o.len() ==> (#[trigger] o[j]).0 != k,
        outputs_from(o) is Some,
    ensures
        outputs_from(o)->0.dom().contains(k),
        output_read(o[i].1) == Some(outputs_from(o)->0[k]),
    decreases o.len(),
{
    if i < o.len() - 1 {
        assert(o[o.len() - 1].0 != k);
        lemma_outputs_from(o.drop_last(), k, i);
    }
}

proof fn lemma_outputs_named(o: Seq<(Seq<char>, JsonModel)>, k: Seq<char>) -> (i: int)
    requires
        outputs_from(o) is Some,
        outputs_from(o)->0.dom().contains(k),
    ensures
        0 <= i < o.len(),
        o[i].0 == k,
        forall|j: int| i < j < o.len() ==> (#[trigger] o[j]).0 != k,
    decreases o.len(),
{
    if o.last().0 == k {
        o.len() - 1
    } else {
        let i = lemma_outputs_named(o.drop_last(), k);
        assert forall|j: int| i < j < o.len() implies (#[trigger] o[j]).0 != k by {
            if j < o.len() - 1 {
                assert(o.drop_last()[j].0 != k);
            }
        }
        i
    }
}

/// A table of outputs gives each name the last output that stands under it, and has no
/// other names.
pub proof fn law_outputs_stand_under_their_names(
    o: Seq<(Seq<char>, JsonModel)>,
    m: Map<Seq<char>, OutputInfo>,
    k: Seq<char>,
    i: int,
)
    requires
        outputs_read(JsonModel::Object(o)) == Some(outputs_model(m)),
        0 <= i < o.len() ==> o[i].0 == k && forall|j: int| i < j < o.len() ==> (#[trigger] o[j]).0 != k,
    ensures
        0 <= i < o.len() ==> m.dom().contains(k) && output_read(o[i].1) == Some(output_model(m[k])),
        json::lacks(o, k) ==> !m.dom().contains(k),
{
    let r = outputs_from(o)->0;
    assert(r == outputs_model(m));
    assert(m.dom() =~= r.dom());
    if 0 <= i < o.len() {
        lemma_outputs_from(o, k, i);
        assert(r.dom().contains(k));
        assert(m.dom().contains(k));
        assert(outputs_model(m)[k] == output_model(m[k]));
    }
    if json::lacks(o, k) && m.dom().contains(k) {
        let j = lemma_outputs_named(o, k);
        assert(o[j].0 != k);
    }
}

/// A name that is not the name of an event.
pub open spec fn is_strange(name: Seq<char>) -> bool {
    &&& name != "WorkspacesChanged"@
    &&& name != "WorkspaceActivated"@
    &&& name != "OutputsChanged"@
    &&& name != "WindowsChanged"@
    &&& name != "WindowOpenedOrChanged"@
    &&& name != "WindowClosed"@
    &&& name != "WindowFocusChanged"@
    &&& name != "WorkspaceActiveWindowChanged"@
    &&& name != "WindowLayoutsChanged"@
}

proof fn lemma_event_from(o: Seq<(Seq<char>, JsonModel)>, i: int)
    requires
        0 <= i < o.len(),
        forall|j: int| i < j < o.len() ==> is_strange((#[trigger] o[j]).0),
        !is_strange(o[i].0),
        event_from(o) is Some,
    ensures
        entry_read(o[i].0, o[i].1) == Some(event_from(o)),
    decreases o.len(),
{
    if i < o.len() - 1 {
        assert(is_strange(o[o.len() - 1].0));
        let d = o.drop_last();
        assert(d[i] == o[i]);
        assert forall|j: int| i < j < d.len() implies is_strange((#[trigger] d[j]).0) by {
            assert(is_strange(o[j].0));
        }
        lemma_event_from(d, i);
    }
}

proof fn lemma_no_event_from(o: Seq<(Seq<char>, JsonModel)>)
    requires
        forall|j: int| 0 <= j < o.len() ==> is_strange((#[trigger] o[j]).0),
    ensures
        event_from(o) == Some(EventModel::Other),
    decreases o.len(),
{
    if o.len() > 0 {
        let d = o.drop_last();
        assert forall|j: int| 0 <= j < d.len() implies is_strange((#[trigger] d[j]).0) by {
            assert(is_strange(o[j].0));
        }
        lemma_no_event_from(d);
        assert(is_strange(o[o.len() - 1].0));
    }
}

proof fn lemma_bad_entry(o: Seq<(Seq<char>, JsonModel)>, i: int)
    requires
        0 <= i < o.len(),
        entry_read(o[i].0, o[i].1) is None,
    ensures
        event_from(o) is None,
    decreases o.len(),
{
    if i < o.len() - 1 {
        assert(o.drop_last()[i] == o[i]);
        lemma_bad_entry(o.drop_last(), i);
    }
}

proof fn lemma_good_entries(o: Seq<(Seq<char>, JsonModel)>)
    requires
        forall|j: int| 0 <= j < o.len() ==> entry_read((#[trigger] o[j]).0, o[j].1) is Some,
    ensures
        event_from(o) is Some,
    decreases o.len(),
{
    if o.len() > 0 {
        let d = o.drop_last();
        assert forall|j: int| 0 <= j < d.len() implies entry_read((#[trigger] d[j]).0, d[j].1) is Some by {
            assert(d[j] == o[j]);
        }
        lemma_good_entries(d);
        assert(entry_read(o[o.len() - 1].0, o[o.len() - 1].1) is Some);
    }
}

/// An event is its last entry with the name of an event; names that are none count for
/// nothing. It can be read if and only if each of its entries can.
pub proof fn law_event_is_its_last_known_entry(o: Seq<(Seq<char>, JsonModel)>, i: int)
    ensures
        event_read(JsonModel::Object(o)) is Some <==> forall|j: int|
            0 <= j < o.len() ==> entry_read((#[trigger] o[j]).0, o[j].1) is Some,
        0 <= i < o.len() && !is_strange(o[i].0) && (forall|j: int|
            i < j < o.len() ==> is_strange((#[trigger] o[j]).0)) && event_read(JsonModel::Object(o)) is Some
            ==> entry_read(o[i].0, o[i].1) == Some(event_read(JsonModel::Object(o))),
        (forall|j: int| 0 <= j < o.len() ==> is_strange((#[trigger] o[j]).0)) ==> event_read(JsonModel::Object(o))
            == Some(EventModel::Other),
{
    if forall|j: int| 0 <= j < o.len() ==> entry_read((#[trigger] o[j]).0, o[j].1) is Some {
        lemma_good_entries(o);
    } else {
        let j = choose|j: int| 0 <= j < o.len() && entry_read((#[trigger] o[j]).0, o[j].1) is None;
        lemma_bad_entry(o, j);
    }
    if 0 <= i < o.len() && !is_strange(o[i].0) && (forall|j: int|
        i < j < o.len() ==> is_strange((#[trigger] o[j]).0)) && event_read(JsonModel::Object(o)) is Some {
        lemma_event_from(o, i);
    }
    if forall|j: int| 0 <= j < o.len() ==> is_strange((#[trigger] o[j]).0) {
        lemma_no_event_from(o);
    }
}

proof fn lemma_event_names()
    ensures
        "WorkspacesChanged"@.len() == 17,
        "WorkspaceActivated"@.len() == 18,
        "OutputsChanged"@.len() == 14,
        "WindowsChanged"@.len() == 14,
        "WindowsChanged"@[0] == 'W',
        "OutputsChanged"@[0] == 'O',
        "WindowOpenedOrChanged"@.len() == 21,
        "WindowClosed"@.len() == 12,
        "WindowFocusChanged"@.len() == 18,
        "WindowFocusChanged"@[1] == 'i',
        "WorkspaceActivated"@[1] == 'o',
        "WorkspaceActiveWindowChanged"@.len() == 28,
        "WindowLayoutsChanged"@.len() == 20,
{
    reveal_strlit("WorkspacesChanged");
    reveal_strlit("WorkspaceActivated");
    reveal_strlit("OutputsChanged");
    reveal_strlit("WindowsChanged");
    reveal_strlit("WindowOpenedOrChanged");
    reveal_strlit("WindowClosed");
    reveal_strlit("WindowFocusChanged");
    reveal_strlit("WorkspaceActiveWindowChanged");
    reveal_strlit("WindowLayoutsChanged");
}

/// The events that list everything hold what stands under the name of the list, and have to
/// hold it.
pub proof fn law_list_events_hold_their_lists(v: JsonModel, f: Option<JsonModel>)
    ensures
        json::says(v, "workspaces"@, 0, f) ==> entry_read("WorkspacesChanged"@, v) == (if !is_no_structure(v, 1)
            && f is Some && workspaces_read(f->0) is Some {
            Some(Some(EventModel::WorkspacesChanged(workspaces_read(f->0)->0)))
        } else {
            None
        }),
        json::says(v, "windows"@, 0, f) ==> entry_read("WindowsChanged"@, v) == (if !is_no_structure(v, 1) && f is Some
            && windows_read(f->0) is Some {
            Some(Some(EventModel::WindowsChanged(windows_read(f->0)->0)))
        } else {
            None
        }),
        json::says(v, "window"@, 0, f) ==> entry_read("WindowOpenedOrChanged"@, v) == (if !is_no_structure(v, 1)
            && f is Some && window_read(f->0) is Some {
            Some(Some(EventModel::WindowOpenedOrChanged(window_read(f->0)->0)))
        } else {
            None
        }),
        json::says(v, "changes"@, 0, f) ==> entry_read("WindowLayoutsChanged"@, v) == (if !is_no_structure(v, 1)
            && f is Some && changes_read(f->0) is Some {
            Some(Some(EventModel::WindowLayoutsChanged(changes_read(f->0)->0)))
        } else {
            None
        }),
{
    lemma_event_names();
    if json::says(v, "workspaces"@, 0, f) {
        json::law_field_is_what_is_said(v, "workspaces"@, 0, f);
    }
    if json::says(v, "windows"@, 0, f) {
        json::law_field_is_what_is_said(v, "windows"@, 0, f);
    }
    if json::says(v, "window"@, 0, f) {
        json::law_field_is_what_is_said(v, "window"@, 0, f);
    }
    if json::says(v, "changes"@, 0, f) {
        json::law_field_is_what_is_said(v, "changes"@, 0, f);
    }
}

/// An event of the outputs holds what stands under their name. In an object it may hold
/// none.
pub proof fn law_outputs_event_may_hold_none(v: JsonModel, f: Option<JsonModel>)
    requires
        json::says(v, "outputs"@, 0, f),
        !is_no_structure(v, 1),
    ensures
        f matches Some(t) && t is Null ==> entry_read("OutputsChanged"@, v) == Some(Some(EventModel::OutputsChanged(None))),
        f is None ==> entry_read("OutputsChanged"@, v) == (if v is Object {
            Some(Some(EventModel::OutputsChanged(None)))
        } else {
            None
        }),
        f matches Some(t) && !(t is Null) ==> entry_read("OutputsChanged"@, v) == (match outputs_read(f->0) {
            Some(o) => Some(Some(EventModel::OutputsChanged(Some(o)))),
            None => None,
        }),
{
    lemma_event_names();
    json::law_field_is_what_is_said(v, "outputs"@, 0, f);
}

/// The event of an activation holds what stands under `id` and `focused`, and has to hold
/// both.
pub proof fn law_activation_holds_its_fields(
    v: JsonModel,
    e: Event,
    id: Option<JsonModel>,
    focused: Option<JsonModel>,
)
    requires
        json::says(v, "id"@, 0, id),
        json::says(v, "focused"@, 1, focused),
    ensures
        entry_read("WorkspaceActivated"@, v) is Some <==> !is_no_structure(v, 2) && id is Some && focused is Some
            && fits_whole(id, 0, u64::MAX as int) && fits_flag(focused),
        entry_read("WorkspaceActivated"@, v) == Some(Some(event_model(e))) ==> (e matches Event::WorkspaceActivated {
            id: i,
            focused: b,
        } && id == Some(JsonModel::Number(i as int)) && focused == Some(JsonModel::Bool(b))),
{
    lemma_event_names();
    json::law_field_is_what_is_said(v, "id"@, 0, id);
    json::law_field_is_what_is_said(v, "focused"@, 1, focused);
}

/// The event of a closed window holds what stands under `id`, and has to hold it.
pub proof fn law_closing_holds_its_window(v: JsonModel, e: Event, id: Option<JsonModel>)
    requires
        json::says(v, "id"@, 0, id),
    ensures
        entry_read("WindowClosed"@, v) is Some <==> !is_no_structure(v, 1) && id is Some && fits_whole(
            id,
            0,
            u64::MAX as int,
        ),
        entry_read("WindowClosed"@, v) == Some(Some(event_model(e))) ==> (e matches Event::WindowClosed { id: i } && id
            == Some(JsonModel::Number(i as int))),
{
    lemma_event_names();
    json::law_field_is_what_is_said(v, "id"@, 0, id);
}

/// The event of the focus holds what stands under `id`. Where null stands there, or
/// nothing in an object, no window has the focus.
pub proof fn law_focus_event_holds_its_window(v: JsonModel, e: Event, id: Option<JsonModel>)
    requires
        json::says(v, "id"@, 0, id),
    ensures
        entry_read("WindowFocusChanged"@, v) is Some <==> !is_no_structure(v, 1) && (v is Object || id is Some)
            && fits_id(id),
        entry_read("WindowFocusChanged"@, v) == Some(Some(event_model(e))) ==> (e matches Event::WindowFocusChanged {
            id: i,
        } && is_id(i, id)),
{
    lemma_event_names();
    json::law_field_is_what_is_said(v, "id"@, 0, id);
}

/// The event of the active window of a workspace holds what stands under `workspace_id`,
/// which it has to hold, and under `active_window_id`.
pub proof fn law_active_window_event_holds_its_fields(
    v: JsonModel,
    e: Event,
    workspace: Option<JsonModel>,
    window: Option<JsonModel>,
)
    requires
        json::says(v, "workspace_id"@, 0, workspace),
        json::says(v, "active_window_id"@, 1, window),
    ensures
        entry_read("WorkspaceActiveWindowChanged"@, v) is Some <==> !is_no_structure(v, 2) && workspace is Some
            && fits_whole(workspace, 0, u64::MAX as int) && (v is Object || window is Some) && fits_id(window),
        entry_read("WorkspaceActiveWindowChanged"@, v) == Some(Some(event_model(e))) ==> (e matches
            Event::WorkspaceActiveWindowChanged { workspace_id: w, active_window_id: a } && workspace == Some(
            JsonModel::Number(w as int),
        ) && is_id(a, window)),
{
    lemma_event_names();
    json::law_field_is_what_is_said(v, "workspace_id"@, 0, workspace);
    json::law_field_is_what_is_said(v, "active_window_id"@, 1, window);
}

/// The events that list everything say what their lists say.
pub proof fn law_events_say_their_lists(e: Event)
    ensures
        event_model(e) matches EventModel::WorkspacesChanged(s) ==> (e matches Event::WorkspacesChanged { workspaces: w }
            && w@.len() == s.len() && forall|i: int| 0 <= i < s.len() ==> #[trigger] s[i] == workspace_model(w@[i])),
        event_model(e) matches EventModel::WindowsChanged(s) ==> (e matches Event::WindowsChanged { windows: w }
            && w@.len() == s.len() && forall|i: int| 0 <= i < s.len() ==> #[trigger] s[i] == window_model(w@[i])),
        event_model(e) matches EventModel::WindowOpenedOrChanged(m) ==> (e matches Event::WindowOpenedOrChanged {
            window: w,
        } && m == window_model(w)),
        event_model(e) matches EventModel::WindowLayoutsChanged(s) ==> (e matches Event::WindowLayoutsChanged {
            changes: c,
        } && c@.len() == s.len() && forall|i: int|
            0 <= i < s.len() ==> #[trigger] s[i] == (c@[i].0 as int, layout_model(c@[i].1))),
        event_model(e) matches EventModel::OutputsChanged(m) ==> (e matches Event::OutputsChanged { outputs: o } && match (
            o,
            m,
        ) {
            (Some(t), Some(u)) => u == outputs_model(t@),
            (None, None) => true,
            _ => false,
        }),
        event_model(e) is Other ==> e is Other,
{
}

} // verus!
