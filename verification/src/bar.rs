//! The bar: where it stands, what it holds, and when it shows an error.
use vstd::prelude::*;

use crate::config::BarPosition;
use crate::text;

verus! {

// ---------------------------------------------------------------------------
// Modules
// ---------------------------------------------------------------------------

/// The kind of widget that a module is shown with.
#[derive(Debug, Clone, Copy, PartialEq, Eq, Structural)]
pub enum ModulePlacement {
    Taskbar,
    Tray,
    Simple,
}

/// The modules that are a button with a label.
pub open spec fn is_simple(name: Seq<char>) -> bool {
    name == "volume"@ || name == "bluetooth"@ || name == "network"@ || name == "memory"@ || name
        == "brightness"@ || name == "battery"@ || name == "clock"@ || name == "spacer"@
}

/// The kind of widget that a module is shown with. There is none for a name that is
/// not that of a module.
pub open spec fn placement(name: Seq<char>) -> Option<ModulePlacement> {
    if name == "taskbar"@ {
        Some(ModulePlacement::Taskbar)
    } else if name == "tray"@ {
        Some(ModulePlacement::Tray)
    } else if is_simple(name) {
        Some(ModulePlacement::Simple)
    } else {
        None
    }
}

/// The kind of widget that a module is shown with.
pub fn resolve_module_placement(name: &str) -> (r: Option<ModulePlacement>)
    ensures
        r == placement(name@),
{
    if text::same(name, "taskbar") {
        Some(ModulePlacement::Taskbar)
    } else if text::same(name, "tray") {
        Some(ModulePlacement::Tray)
    } else if text::same(name, "volume") || text::same(name, "bluetooth") || text::same(
        name,
        "network",
    ) || text::same(name, "memory") || text::same(name, "brightness") || text::same(name, "battery")
        || text::same(name, "clock") || text::same(name, "spacer") {
        Some(ModulePlacement::Simple)
    } else {
        None
    }
}

/// The names of a section that are shown.
pub open spec fn shown_names() -> spec_fn(Seq<char>) -> bool {
    |n: Seq<char>| placement(n) is Some
}

/// The names of a section that are not.
pub open spec fn unknown_names() -> spec_fn(Seq<char>) -> bool {
    |n: Seq<char>| placement(n) is None
}

/// The modules of a section in their order, each with the kind of its widget, and the
/// names that are not those of modules.
pub fn place_modules(names: &Vec<String>) -> (r: (Vec<(String, ModulePlacement)>, Vec<String>))
    ensures
        Seq::new(r.0@.len(), |i: int| r.0@[i].0@) == text::strs(names@).filter(shown_names()),
        forall|i: int|
            0 <= i < r.0@.len() ==> placement((#[trigger] r.0@[i]).0@) == Some(r.0@[i].1),
        text::strs(r.1@) == text::strs(names@).filter(unknown_names()),
{
    let ghost all: Seq<Seq<char>> = text::strs(names@);
    let mut shown: Vec<(String, ModulePlacement)> = Vec::new();
    let mut unknown: Vec<String> = Vec::new();
    let mut i: usize = 0;
    proof {
        reveal(Seq::filter);
        assert(Seq::new(shown@.len(), |i: int| shown@[i].0@) =~= all.take(0).filter(shown_names()));
        assert(text::strs(unknown@) =~= all.take(0).filter(unknown_names()));
    }
    while i < names.len()
        invariant
            i <= names@.len(),
            all == text::strs(names@),
            Seq::new(shown@.len(), |i: int| shown@[i].0@) == all.take(i as int).filter(
                shown_names(),
            ),
            forall|k: int|
                0 <= k < shown@.len() ==> placement((#[trigger] shown@[k]).0@) == Some(shown@[k].1),
            text::strs(unknown@) == all.take(i as int).filter(unknown_names()),
        decreases names@.len() - i,
    {
        proof {
            reveal(Seq::filter);
            assert(all.take(i + 1).drop_last() =~= all.take(i as int));
            assert(all.take(i + 1).last() == names@[i as int]@);
        }
        match resolve_module_placement(names[i].as_str()) {
            Some(p) => {
                let ghost before: Seq<(String, ModulePlacement)> = shown@;
                shown.push((names[i].clone(), p));
                assert(Seq::new(shown@.len(), |i: int| shown@[i].0@) =~= Seq::new(
                    before.len(),
                    |i: int| before[i].0@,
                ).push(names@[i as int]@));
            },
            None => {
                let ghost before: Seq<String> = unknown@;
                unknown.push(names[i].clone());
                assert(text::strs(unknown@) =~= text::strs(before).push(names@[i as int]@));
            },
        }
        i = i + 1;
    }
    assert(all.take(i as int) =~= all);
    (shown, unknown)
}

/// What is said of a name that is not that of a module.
pub fn unknown_module_message(name: &str) -> (r: String)
    ensures
        r@ == "Unknown module '"@ + name@ + "', skipping (check [modules] start/end)"@,
{
    text::concat(
        text::concat("Unknown module '", name).as_str(),
        "', skipping (check [modules] start/end)",
    )
}

// ---------------------------------------------------------------------------
// Layout
// ---------------------------------------------------------------------------

/// Where a bar stands: the edges that it is held at, the size that it asks for (-1
/// for as much as there is), and the class of its direction.
#[derive(Debug, Clone, Copy, PartialEq, Eq)]
pub struct BarLayout {
    pub left: bool,
    pub right: bool,
    pub top: bool,
    pub bottom: bool,
    pub width: i32,
    pub height: i32,
    pub class: &'static str,
}

/// Where a bar of a size stands. It is held at its own edge and at both edges next to
/// it, and asks for its size across and for all there is along.
pub fn bar_layout(position: BarPosition, size: i32) -> (r: BarLayout)
    ensures
        r.left == (position != BarPosition::Right),
        r.right == (position != BarPosition::Left),
        r.top == (position != BarPosition::Bottom),
        r.bottom == (position != BarPosition::Top),
        position.vertical() ==> r.width == size && r.height == -1 && r.class@ == "vertical"@,
        !position.vertical() ==> r.width == -1 && r.height == size && r.class@ == "horizontal"@,
{
    let vertical: bool = position.is_vertical();
    BarLayout {
        left: position != BarPosition::Right,
        right: position != BarPosition::Left,
        top: position != BarPosition::Bottom,
        bottom: position != BarPosition::Top,
        width: if vertical {
            size
        } else {
            -1
        },
        height: if vertical {
            -1
        } else {
            size
        },
        class: if vertical {
            "vertical"
        } else {
            "horizontal"
        },
    }
}

// ---------------------------------------------------------------------------
// Errors
// ---------------------------------------------------------------------------

/// The style of the error badge.
pub const ERROR_BADGE_CSS: &'static str = "#bar-error-badge,\nbutton#bar-error-badge,\n#bar-error-badge:backdrop,\nbutton#bar-error-badge:backdrop {\n    background-color: #000000;\n    background-image: none;\n    border-color: #ff3333;\n    border-style: solid;\n    border-width: 2px;\n    border-radius: 4px;\n    padding: 2px 8px;\n    margin: 4px 2px;\n    box-shadow: none;\n    text-shadow: none;\n    -gtk-icon-shadow: none;\n}\n\n#bar-error-badge:hover,\nbutton#bar-error-badge:hover,\n#bar-error-badge:hover:backdrop,\nbutton#bar-error-badge:hover:backdrop {\n    background-color: #1a0000;\n    background-image: none;\n    border-color: #ff6666;\n    border-style: solid;\n    border-width: 2px;\n}\n\n#bar-error-badge:active,\nbutton#bar-error-badge:active {\n    background-color: #2a0000;\n    background-image: none;\n    border-color: #ff8888;\n    border-style: solid;\n    border-width: 2px;\n}\n\n#bar-error-badge label,\nbutton#bar-error-badge label,\n#bar-error-badge label:backdrop,\nbutton#bar-error-badge label:backdrop {\n    color: #ff3333;\n    font-weight: bold;\n    text-shadow: none;\n}";

/// The label of the error badge.
pub const ERROR_LABEL_MARKUP: &'static str = "<span foreground=\"#ff3333\" weight=\"bold\">ERROR</span>";

/// The label of the error badge right after the error was copied.
pub const ERROR_LABEL_COPIED_MARKUP: &'static str = "<span foreground=\"#55ff55\" weight=\"bold\">COPIED!</span>";

/// The badge that shows an error. It is there while there is one.
#[derive(Debug, Clone, PartialEq, Eq)]
pub struct ErrorBadge {
    pub current_error: Option<String>,
    /// The error was copied a moment ago.
    pub copied: bool,
}

impl ErrorBadge {
    /// A badge that is not there.
    pub fn new() -> (r: Self)
        ensures
            r.current_error is None,
            !r.copied,
    {
        ErrorBadge { current_error: None, copied: false }
    }

    /// Shows an error.
    pub fn show_error(&mut self, error: &str)
        ensures
            text::opt(final(self).current_error) == Some(error@),
            !final(self).copied,
    {
        self.current_error = Some(error.to_owned());
        self.copied = false;
    }

    /// Takes the badge away.
    pub fn clear_error(&mut self)
        ensures
            final(self).current_error is None,
            !final(self).copied,
    {
        self.current_error = None;
        self.copied = false;
    }

    /// Whether the badge is there.
    pub fn is_visible(&self) -> (r: bool)
        ensures
            r == self.current_error is Some,
    {
        self.current_error.is_some()
    }

    /// What the badge says.
    pub fn label_markup(&self) -> (r: &'static str)
        ensures
            r@ == (if self.copied {
                ERROR_LABEL_COPIED_MARKUP@
            } else {
                ERROR_LABEL_MARKUP@
            }),
    {
        if self.copied {
            ERROR_LABEL_COPIED_MARKUP
        } else {
            ERROR_LABEL_MARKUP
        }
    }

    /// What the badge says on hover.
    pub fn tooltip_text(&self) -> (r: Option<String>)
        ensures
            text::opt(r) == (match text::opt(self.current_error) {
                Some(e) => Some("Click to copy error below:\n\n"@ + e),
                None => None,
            }),
    {
        match &self.current_error {
            Some(e) => Some(text::concat("Click to copy error below:\n\n", e.as_str())),
            None => None,
        }
    }

    /// A click on the badge: the text that goes to the clipboard.
    pub fn click(&mut self) -> (r: Option<String>)
        ensures
            text::opt(r) == text::opt(old(self).current_error),
            text::opt(final(self).current_error) == text::opt(old(self).current_error),
            final(self).copied == (old(self).copied || old(self).current_error is Some),
    {
        match &self.current_error {
            Some(e) => {
                let copy: String = e.clone();
                self.copied = true;
                Some(copy)
            },
            None => None,
        }
    }

    /// The badge says again that there is an error, a while after it was copied.
    pub fn settle(&mut self)
        ensures
            text::opt(final(self).current_error) == text::opt(old(self).current_error),
            !final(self).copied,
    {
        self.copied = false;
    }
}

// ---------------------------------------------------------------------------
// Outputs
// ---------------------------------------------------------------------------

/// How long a bar without an output waits before it asks for the outputs again, in
/// milliseconds.
pub const UNRESOLVED_REFRESH_INTERVAL_MS: u64 = 5000;

/// A bar: the output that it stands on, where that is known, and when it last asked
/// for the outputs.
#[derive(Debug, Clone)]
pub struct BarWindow {
    pub detected_output: Option<String>,
    pub last_output_refresh: Option<u64>,
    pub error_badge: ErrorBadge,
}

/// A bar that last asked at one time may ask again at another.
pub open spec fn refresh_due(last: Option<u64>, now: u64) -> bool {
    match last {
        Some(t) => now - t >= UNRESOLVED_REFRESH_INTERVAL_MS,
        None => true,
    }
}

impl BarWindow {
    /// A bar on an output, or on one that is not known yet.
    pub fn new(detected_output: Option<String>) -> (r: Self)
        ensures
            r.detected_output == detected_output,
            r.last_output_refresh is None,
            r.error_badge.current_error is None,
            !r.error_badge.copied,
    {
        BarWindow { detected_output, last_output_refresh: None, error_badge: ErrorBadge::new() }
    }

    /// Takes note of the output that the bar stands on now, at a time in milliseconds.
    /// Says whether to ask for the outputs: where none is known, and the bar did not
    /// ask a moment ago.
    pub fn update(&mut self, detected: Option<String>, now: u64) -> (r: bool)
        ensures
            final(self).detected_output == detected,
            r == (detected is None && refresh_due(old(self).last_output_refresh, now)),
            final(self).last_output_refresh == (if r {
                Some(now)
            } else {
                old(self).last_output_refresh
            }),
            final(self).error_badge == old(self).error_badge,
    {
        let unknown: bool = detected.is_none();
        self.detected_output = detected;
        if !unknown {
            return false;
        }
        let due: bool = match self.last_output_refresh {
            Some(t) => now >= t && now - t >= UNRESOLVED_REFRESH_INTERVAL_MS,
            None => true,
        };
        if due {
            self.last_output_refresh = Some(now);
        }
        due
    }

    /// Shows an error on the bar.
    pub fn show_error(&mut self, error: &str)
        ensures
            text::opt(final(self).error_badge.current_error) == Some(error@),
            !final(self).error_badge.copied,
            final(self).detected_output == old(self).detected_output,
            final(self).last_output_refresh == old(self).last_output_refresh,
    {
        self.error_badge.show_error(error);
    }

    /// Shows no error on the bar.
    pub fn clear_error(&mut self)
        ensures
            final(self).error_badge.current_error is None,
            !final(self).error_badge.copied,
            final(self).detected_output == old(self).detected_output,
            final(self).last_output_refresh == old(self).last_output_refresh,
    {
        self.error_badge.clear_error();
    }
}

// ---------------------------------------------------------------------------
// What holds of bars
// ---------------------------------------------------------------------------

/// A name is that of the taskbar, of the tray or of a plain module, and shown with the widget
/// of that kind; every other name has none.
pub proof fn law_names_have_their_widgets(name: Seq<char>)
    ensures
        placement(name) == Some(ModulePlacement::Taskbar) <==> name == "taskbar"@,
        placement(name) == Some(ModulePlacement::Tray) <==> name == "tray"@,
        placement(name) == Some(ModulePlacement::Simple) <==> (name == "volume"@ || name
            == "bluetooth"@ || name == "network"@ || name == "memory"@ || name == "brightness"@
            || name == "battery"@ || name == "clock"@ || name == "spacer"@),
{
    reveal_strlit("taskbar");
    reveal_strlit("tray");
    reveal_strlit("volume");
    reveal_strlit("bluetooth");
    reveal_strlit("network");
    reveal_strlit("memory");
    reveal_strlit("brightness");
    reveal_strlit("battery");
    reveal_strlit("clock");
    reveal_strlit("spacer");
    assert("taskbar"@[0] == 't' && "network"@[0] == 'n' && "battery"@[0] == 'b');
    assert("taskbar"@.len() == 7 && "tray"@.len() == 4 && "volume"@.len() == 6 && "bluetooth"@.len()
        == 9 && "memory"@.len() == 6 && "brightness"@.len() == 10 && "clock"@.len() == 5
        && "spacer"@.len() == 6);
}

/// What is shown of a section, and what is unknown in it, are its names in their order: one more
/// name comes last among those that it belongs to.
pub proof fn law_each_name_is_shown_or_unknown(names: Seq<Seq<char>>, n: Seq<char>)
    ensures
        names.push(n).filter(shown_names()) == (if placement(n) is Some {
            names.filter(shown_names()).push(n)
        } else {
            names.filter(shown_names())
        }),
        names.push(n).filter(unknown_names()) == (if placement(n) is Some {
            names.filter(unknown_names())
        } else {
            names.filter(unknown_names()).push(n)
        }),
        Seq::<Seq<char>>::empty().filter(shown_names()) == Seq::<Seq<char>>::empty(),
        Seq::<Seq<char>>::empty().filter(unknown_names()) == Seq::<Seq<char>>::empty(),
{
    reveal(Seq::filter);
    assert(names.push(n).drop_last() =~= names);
    assert(names.push(n).last() == n);
}

/// A bar that does not know its output asks at once, and then no sooner than five seconds after
/// it asked last.
pub proof fn law_bar_asks_every_five_seconds(last: u64, now: u64)
    ensures
        refresh_due(None, now),
        refresh_due(Some(last), now) <==> now >= last + 5000,
{
}

} // verus!
