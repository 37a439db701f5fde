//! The compositor's windows, workspaces, outputs and events.
use vstd::prelude::*;
use vstd::string::StringExecFns;

use crate::names::NameMap;
use crate::text;

verus! {

/// The place of an output in the compositor's logical space.
#[derive(Debug, Clone, PartialEq, Eq)]
pub struct LogicalOutput {
    pub x: i32,
    pub y: i32,
    pub width: u32,
    pub height: u32,
    /// The scale as the compositor writes it.
    pub scale: Option<String>,
}

/// One output (monitor) of the compositor.
#[derive(Debug, Clone, PartialEq, Eq)]
pub struct OutputInfo {
    pub name: Option<String>,
    pub make: Option<String>,
    pub model: Option<String>,
    /// Width and height in millimetres.
    pub physical_size: Option<(i32, i32)>,
    pub logical: Option<LogicalOutput>,
}

/// One workspace.
#[derive(Debug, Clone, PartialEq, Eq)]
pub struct WorkspaceInfo {
    pub id: u64,
    pub output: Option<String>,
    pub is_active: bool,
    pub is_focused: bool,
}

/// Where a window stands in the scrolling layout: column and tile.
#[derive(Debug, Clone, Copy, PartialEq, Eq)]
pub struct WindowLayout {
    pub pos_in_scrolling_layout: Option<(usize, usize)>,
}

/// One window.
#[derive(Debug, Clone, PartialEq, Eq)]
pub struct WindowInfo {
    pub id: u64,
    pub title: Option<String>,
    pub app_id: Option<String>,
    pub workspace_id: Option<u64>,
    pub is_focused: bool,
    pub layout: Option<WindowLayout>,
}

/// What the compositor reports.
#[derive(Debug)]
pub enum Event {
    WorkspacesChanged { workspaces: Vec<WorkspaceInfo> },
    WorkspaceActivated { id: u64, focused: bool },
    OutputsChanged { outputs: Option<NameMap<OutputInfo>> },
    WindowsChanged { windows: Vec<WindowInfo> },
    WindowOpenedOrChanged { window: WindowInfo },
    WindowClosed { id: u64 },
    WindowFocusChanged { id: Option<u64> },
    WorkspaceActiveWindowChanged { workspace_id: u64, active_window_id: Option<u64> },
    WindowLayoutsChanged { changes: Vec<(u64, WindowLayout)> },
    Other,
}

/// The longest title or application id in bytes that is kept as it is, and the
/// number of characters that is kept of a longer one.
pub const MAX_TEXT: usize = 512;

/// A title or application id as it is kept: one of more than `MAX_TEXT` bytes is
/// cut to its first `MAX_TEXT` characters.
pub open spec fn kept_text(s: Seq<char>) -> Seq<char> {
    if text::byte_len(s) <= MAX_TEXT {
        s
    } else {
        text::first_chars(s, MAX_TEXT as int)
    }
}

/// Cuts an overlong title or application id.
pub fn truncate_opt(s: Option<String>) -> (r: Option<String>)
    ensures
        text::opt(r) == (match s {
            Some(t) => Some(kept_text(t@)),
            None => None,
        }),
{
    match s {
        Some(t) => {
            if text::len_bytes(t.as_str()) <= MAX_TEXT {
                Some(t)
            } else {
                Some(text::take_chars(t.as_str(), MAX_TEXT))
            }
        },
        None => None,
    }
}

impl LogicalOutput {
    /// A copy.
    pub fn copy(&self) -> (r: Self)
        ensures
            r == *self,
    {
        LogicalOutput {
            x: self.x,
            y: self.y,
            width: self.width,
            height: self.height,
            scale: self.scale.clone(),
        }
    }
}

impl WorkspaceInfo {
    /// A copy.
    pub fn copy(&self) -> (r: Self)
        ensures
            r == *self,
    {
        WorkspaceInfo {
            id: self.id,
            output: self.output.clone(),
            is_active: self.is_active,
            is_focused: self.is_focused,
        }
    }
}

impl WindowInfo {
    /// A copy.
    pub fn copy(&self) -> (r: Self)
        ensures
            r == *self,
    {
        WindowInfo {
            id: self.id,
            title: self.title.clone(),
            app_id: self.app_id.clone(),
            workspace_id: self.workspace_id,
            is_focused: self.is_focused,
            layout: self.layout,
        }
    }
}

/// What Rust's `Debug` gives for a text: the text in quotes, with escapes.
pub uninterp spec fn quoted(s: Seq<char>) -> Seq<char>;

/// `Debug` of `str`, through `format!`: the text in quotes, with escapes. Its
/// result is named, not described.
#[verifier::external_body]
fn quote(s: &str) -> (r: String)
    ensures
        r@ == quoted(s@),
{
    format!("{s:?}")
}

/// An optional number as `Some(n)` or `None`.
pub open spec fn shown_opt(n: Option<u64>) -> Seq<char> {
    match n {
        Some(v) => "Some("@ + text::dec(v as nat) + ")"@,
        None => "None"@,
    }
}

/// A truth value in words.
pub open spec fn shown_bool(b: bool) -> Seq<char> {
    if b {
        "true"@
    } else {
        "false"@
    }
}

fn show_opt(n: Option<u64>) -> (s: String)
    ensures
        s@ == shown_opt(n),
{
    match n {
        Some(v) => {
            let mut s: String = "Some(".to_owned();
            s.append(text::decimal(v).as_str());
            s.append(")");
            s
        },
        None => "None".to_owned(),
    }
}

fn show_bool(b: bool) -> (s: &'static str)
    ensures
        s@ == shown_bool(b),
{
    if b {
        "true"
    } else {
        "false"
    }
}

fn counted(name: &str, n: usize) -> (s: String)
    ensures
        s@ == name@ + "(count: "@ + text::dec(n as nat) + ")"@,
{
    let mut s: String = name.to_owned();
    s.append("(count: ");
    s.append(text::decimal(n as u64).as_str());
    s.append(")");
    s
}

impl Event {
    /// The summary that is logged of an event: what happened and to which ids,
    /// never a window's title.
    pub open spec fn summary(self) -> Seq<char> {
        match self {
            Event::WorkspacesChanged { workspaces } => "WorkspacesChanged"@ + "(count: "@ + text::dec(
                workspaces@.len(),
            ) + ")"@,
            Event::WorkspaceActivated { id, focused } => "WorkspaceActivated(id: "@ + text::dec(id as nat)
                + ", focused: "@ + shown_bool(focused) + ")"@,
            Event::OutputsChanged { outputs } => "OutputsChanged"@ + "(count: "@ + text::dec(
                match outputs {
                    Some(o) => o.entries().len(),
                    None => 0,
                },
            ) + ")"@,
            Event::WindowsChanged { windows } => "WindowsChanged"@ + "(count: "@ + text::dec(
                windows@.len(),
            ) + ")"@,
            Event::WindowOpenedOrChanged { window } => "WindowOpenedOrChanged(id: "@ + text::dec(
                window.id as nat,
            ) + ", app: "@ + quoted(
                match window.app_id {
                    Some(a) => a@,
                    None => "unknown"@,
                },
            ) + ", ws: "@ + shown_opt(window.workspace_id) + ", focused: "@ + shown_bool(window.is_focused)
                + ")"@,
            Event::WindowClosed { id } => "WindowClosed(id: "@ + text::dec(id as nat) + ")"@,
            Event::WindowFocusChanged { id } => "WindowFocusChanged(id: "@ + shown_opt(id) + ")"@,
            Event::WorkspaceActiveWindowChanged { workspace_id, active_window_id } =>
                "WorkspaceActiveWindowChanged(ws: "@ + text::dec(workspace_id as nat) + ", active_window: "@
                    + shown_opt(active_window_id) + ")"@,
            Event::WindowLayoutsChanged { changes } => "WindowLayoutsChanged"@ + "(count: "@ + text::dec(
                changes@.len(),
            ) + ")"@,
            Event::Other => "Other"@,
        }
    }

    /// The summary that is logged of this event.
    pub fn privacy_summary(&self) -> (s: String)
        ensures
            s@ == self.summary(),
    {
        match self {
            Event::WorkspacesChanged { workspaces } => counted("WorkspacesChanged", workspaces.len()),
            Event::WorkspaceActivated { id, focused } => {
                let mut s: String = "WorkspaceActivated(id: ".to_owned();
                s.append(text::decimal(*id).as_str());
                s.append(", focused: ");
                s.append(show_bool(*focused));
                s.append(")");
                s
            },
            Event::OutputsChanged { outputs } => {
                let n: usize = match outputs {
                    Some(o) => o.len(),
                    None => 0,
                };
                counted("OutputsChanged", n)
            },
            Event::WindowsChanged { windows } => counted("WindowsChanged", windows.len()),
            Event::WindowOpenedOrChanged { window } => {
                let mut s: String = "WindowOpenedOrChanged(id: ".to_owned();
                s.append(text::decimal(window.id).as_str());
                s.append(", app: ");
                let app: String = match &window.app_id {
                    Some(a) => quote(a.as_str()),
                    None => quote("unknown"),
                };
                s.append(app.as_str());
                s.append(", ws: ");
                s.append(show_opt(window.workspace_id).as_str());
                s.append(", focused: ");
                s.append(show_bool(window.is_focused));
                s.append(")");
                s
            },
            Event::WindowClosed { id } => {
                let mut s: String = "WindowClosed(id: ".to_owned();
                s.append(text::decimal(*id).as_str());
                s.append(")");
                s
            },
            Event::WindowFocusChanged { id } => {
                let mut s: String = "WindowFocusChanged(id: ".to_owned();
                s.append(show_opt(*id).as_str());
                s.append(")");
                s
            },
            Event::WorkspaceActiveWindowChanged { workspace_id, active_window_id } => {
                let mut s: String = "WorkspaceActiveWindowChanged(ws: ".to_owned();
                s.append(text::decimal(*workspace_id).as_str());
                s.append(", active_window: ");
                s.append(show_opt(*active_window_id).as_str());
                s.append(")");
                s
            },
            Event::WindowLayoutsChanged { changes } => counted("WindowLayoutsChanged", changes.len()),
            Event::Other => "Other".to_owned(),
        }
    }
}

/// What is logged of an event does not depend on any window's title.
pub proof fn law_summary_hides_titles(w: WindowInfo, title: Option<String>, a: Vec<WindowInfo>, b: Vec<WindowInfo>)
    ensures
        (Event::WindowOpenedOrChanged { window: WindowInfo { title, ..w } }).summary()
            == (Event::WindowOpenedOrChanged { window: w }).summary(),
        a@.len() == b@.len() ==> (Event::WindowsChanged { windows: a }).summary()
            == (Event::WindowsChanged { windows: b }).summary(),
{
}

/// A title or application id is kept whole up to its limit of bytes. A longer one is cut to
/// its front.
pub proof fn law_kept_text_is_the_front(s: Seq<char>)
    ensures
        vstd::utf8::encode_utf8(s).len() <= 512 ==> kept_text(s) == s,
        vstd::utf8::encode_utf8(s).len() > 512 && s.len() >= 512 ==> kept_text(s) == s.take(512),
        s.len() < 512 ==> kept_text(s) == s,
{
    if s.len() == 512 {
        assert(s.take(512) =~= s);
    }
}

/// The summary names the event and tells the numbers that it is about: how many there are of
/// what is listed, and which window or workspace it is otherwise.
pub proof fn law_summary_tells_what_happened(id: u64, other: Option<u64>, focused: bool, ws: Vec<WorkspaceInfo>, vs: Vec<WindowInfo>)
    ensures
        (Event::WorkspacesChanged { workspaces: ws }).summary() == "WorkspacesChanged"@ + "(count: "@ + text::dec(
            ws@.len(),
        ) + ")"@,
        (Event::WindowsChanged { windows: vs }).summary() == "WindowsChanged"@ + "(count: "@ + text::dec(vs@.len())
            + ")"@,
        (Event::WorkspaceActivated { id, focused }).summary() == "WorkspaceActivated(id: "@ + text::dec(id as nat)
            + ", focused: "@ + (if focused {
            "true"@
        } else {
            "false"@
        }) + ")"@,
        (Event::WindowClosed { id }).summary() == "WindowClosed(id: "@ + text::dec(id as nat) + ")"@,
        (Event::WindowFocusChanged { id: Some(id) }).summary() == "WindowFocusChanged(id: "@ + ("Some("@ + text::dec(
            id as nat,
        ) + ")"@) + ")"@,
        (Event::WindowFocusChanged { id: None }).summary() == "WindowFocusChanged(id: "@ + "None"@ + ")"@,
        (Event::WorkspaceActiveWindowChanged { workspace_id: id, active_window_id: other }).summary()
            == "WorkspaceActiveWindowChanged(ws: "@ + text::dec(id as nat) + ", active_window: "@ + (match other {
            Some(w) => "Some("@ + text::dec(w as nat) + ")"@,
            None => "None"@,
        }) + ")"@,
        (Event::Other).summary() == "Other"@,
{
}

/// The summary of a window tells its number, its application, its workspace and whether it
/// has the focus.
pub proof fn law_summary_of_a_window_tells_its_parts(w: WindowInfo)
    ensures
        (Event::WindowOpenedOrChanged { window: w }).summary() == "WindowOpenedOrChanged(id: "@ + text::dec(w.id as nat)
            + ", app: "@ + quoted(
            match w.app_id {
                Some(a) => a@,
                None => "unknown"@,
            },
        ) + ", ws: "@ + (match w.workspace_id {
            Some(k) => "Some("@ + text::dec(k as nat) + ")"@,
            None => "None"@,
        }) + ", focused: "@ + (if w.is_focused {
            "true"@
        } else {
            "false"@
        }) + ")"@,
{
}

} // verus!
