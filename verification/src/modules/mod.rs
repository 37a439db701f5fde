//! The modules of the bar, and what they have in common.
use async_channel::{Receiver, Sender};
use vstd::prelude::*;
use vstd::string::StringExecFns;

use crate::config::ClickActions;
use crate::text;
use crate::util;
use crate::util::{keep_open, Delivery};

pub mod battery;
pub mod bluetooth;
pub mod brightness;
pub mod clock;
pub mod memory;
pub mod network;
pub mod spacer;
pub mod tray;
pub mod volume;

verus! {

// ---------------------------------------------------------------------------
// States
// ---------------------------------------------------------------------------

/// The direction of a bar.
#[derive(Clone, Copy, Debug, PartialEq, Eq, Structural)]
pub enum Orientation {
    Horizontal,
    Vertical,
}

/// A mouse button.
#[derive(Clone, Copy, Debug, PartialEq, Eq, Structural)]
pub enum MouseButton {
    Left,
    Right,
    Middle,
}

/// A direction of scrolling.
#[derive(Clone, Copy, Debug, PartialEq, Eq, Structural)]
pub enum ScrollDirection {
    Up,
    Down,
}

/// What a module shows.
#[derive(Clone, Debug)]
pub struct ModuleState {
    pub icon: Option<String>,
    pub text: Option<String>,
    pub tooltip: Option<String>,
    pub css_classes: Vec<String>,
}

/// What a `ModuleState` says.
#[verifier::ext_equal]
pub ghost struct StateModel {
    pub icon: Option<Seq<char>>,
    pub text: Option<Seq<char>>,
    pub tooltip: Option<Seq<char>>,
    pub classes: Seq<Seq<char>>,
}

impl ModuleState {
    /// What this state says.
    pub open spec fn model(self) -> StateModel {
        StateModel {
            icon: text::opt(self.icon),
            text: text::opt(self.text),
            tooltip: text::opt(self.tooltip),
            classes: text::strs(self.css_classes@),
        }
    }
}

impl Default for ModuleState {
    fn default() -> (r: Self)
        ensures
            r.model() == (StateModel {
                icon: None,
                text: None,
                tooltip: None,
                classes: Seq::empty(),
            }),
    {
        let r: ModuleState = ModuleState {
            icon: None,
            text: None,
            tooltip: None,
            css_classes: Vec::new(),
        };
        assert(r.model().classes =~= Seq::empty());
        r
    }
}

/// Adds a class.
pub fn push_class(classes: &mut Vec<String>, class: &str)
    ensures
        text::strs(final(classes)@) == text::strs(old(classes)@).push(class@),
{
    classes.push(class.to_owned());
    assert(text::strs(classes@) =~= text::strs(old(classes)@).push(class@));
}

/// The class of a threshold, if there is one.
pub open spec fn level_classes(threshold: Option<u32>) -> Seq<Seq<char>> {
    match threshold {
        Some(t) => seq!["level-"@ + text::dec(t as nat)],
        None => Seq::empty(),
    }
}

/// Adds the class of a threshold, if there is one.
pub fn push_level(classes: &mut Vec<String>, threshold: Option<u32>)
    ensures
        text::strs(final(classes)@) == text::strs(old(classes)@) + level_classes(threshold),
{
    if let Some(t) = threshold {
        let class: String = text::concat("level-", text::decimal(t as u64).as_str());
        push_class(classes, class.as_str());
    }
    assert(text::strs(classes@) =~= text::strs(old(classes)@) + level_classes(threshold));
}

/// The mouse button with a number; `None` for any other.
pub fn mouse_button(number: u32) -> (r: Option<MouseButton>)
    ensures
        r == (if number == 1 {
            Some(MouseButton::Left)
        } else if number == 2 {
            Some(MouseButton::Middle)
        } else if number == 3 {
            Some(MouseButton::Right)
        } else {
            None
        }),
{
    if number == 1 {
        Some(MouseButton::Left)
    } else if number == 2 {
        Some(MouseButton::Middle)
    } else if number == 3 {
        Some(MouseButton::Right)
    } else {
        None
    }
}

// ---------------------------------------------------------------------------
// Commands
// ---------------------------------------------------------------------------

/// The commands of the left, right and middle button.
pub type Commands = (Option<Seq<char>>, Option<Seq<char>>, Option<Seq<char>>);

/// What is run for a command: the command without white space at its ends, unless it
/// is blank.
pub open spec fn runnable(command: Option<Seq<char>>) -> Option<Seq<char>> {
    match command {
        Some(c) => if text::is_blank(c) {
            None
        } else {
            Some(text::trimmed(c))
        },
        None => None,
    }
}

/// The command of a button.
pub open spec fn command_of(commands: Commands, button: MouseButton) -> Option<Seq<char>> {
    match button {
        MouseButton::Left => commands.0,
        MouseButton::Right => commands.1,
        MouseButton::Middle => commands.2,
    }
}

/// Some button has a command that is run.
pub open spec fn any_runnable(commands: Commands) -> bool {
    runnable(commands.0) is Some || runnable(commands.1) is Some || runnable(commands.2) is Some
}

/// What is run for a command, with the shell.
pub fn shell_command(command: Option<&str>) -> (r: Option<String>)
    ensures
        text::opt(r) == runnable(text::opt_str(command)),
{
    match command {
        Some(c) => {
            if text::blank(c) {
                None
            } else {
                Some(text::trim(c))
            }
        },
        None => None,
    }
}

/// A module of the bar.
pub trait BarModule {
    /// The commands of the left, right and middle button.
    spec fn commands(&self) -> Commands;

    /// A click does something without any command.
    spec fn acts_by_itself(&self) -> bool;

    /// The name that the configuration has for the module.
    spec fn title(&self) -> Seq<char>;

    /// The name that the configuration has for the module.
    fn name(&self) -> (r: &'static str)
        ensures
            r@ == self.title(),
    ;

    /// The commands of the left, right and middle button.
    fn click_commands(&self) -> (r: (Option<&str>, Option<&str>, Option<&str>))
        ensures
            (text::opt_str(r.0), text::opt_str(r.1), text::opt_str(r.2)) == self.commands(),
    ;

    /// Whether a click does something without any command.
    fn has_default_action(&self) -> (r: bool)
        ensures
            r == self.acts_by_itself(),
    ;

    /// What is run for a click with a button.
    fn click_command(&self, button: MouseButton) -> (r: Option<String>)
        ensures
            text::opt(r) == runnable(command_of(self.commands(), button)),
    {
        let (left, right, middle) = self.click_commands();
        match button {
            MouseButton::Left => shell_command(left),
            MouseButton::Right => shell_command(right),
            MouseButton::Middle => shell_command(middle),
        }
    }

    /// Whether any click does something.
    fn is_clickable(&self) -> (r: bool)
        ensures
            r == (self.acts_by_itself() || any_runnable(self.commands())),
    {
        let (left, right, middle) = self.click_commands();
        self.has_default_action() || shell_command(left).is_some() || shell_command(right).is_some()
            || shell_command(middle).is_some()
    }
}

/// The commands of a section of the configuration.
pub open spec fn commands_of(click: ClickActions) -> Commands {
    (
        text::opt(click.on_click_left),
        text::opt(click.on_click_right),
        text::opt(click.on_click_middle),
    )
}

/// The environment variable that overrides the path of a helper program.
pub open spec fn helper_variable(name: Seq<char>) -> Seq<char> {
    "NIRI_BAR_"@ + text::replaced(text::uppercase(name), "-"@, "_"@)
}

/// The environment variable that overrides the path of a helper program.
pub fn helper_env_key(name: &str) -> (r: String)
    ensures
        r@ == helper_variable(name@),
{
    variable_of(text::to_uppercase(name).as_str())
}

/// The environment variable that overrides the path of a helper program, by its name in
/// upper case.
pub fn variable_of(upper: &str) -> (r: String)
    ensures
        r@ == "NIRI_BAR_"@ + text::replaced(upper@, "-"@, "_"@),
{
    text::concat("NIRI_BAR_", text::replace(upper, "-", "_").as_str())
}

/// The path of a helper program: what the environment says, unless that is blank;
/// else the program under `/usr/bin` or `/bin`, where it is there; else its name.
pub open spec fn helper_path(
    name: Seq<char>,
    own: Option<Seq<char>>,
    in_usr_bin: bool,
    in_bin: bool,
) -> Seq<char> {
    if own is Some && !text::is_blank(own->0) {
        own->0
    } else if in_usr_bin {
        "/usr/bin/"@ + name
    } else if in_bin {
        "/bin/"@ + name
    } else {
        name
    }
}

/// The path of a helper program. `own` is what the environment says under its
/// variable; the others say where the program is.
pub fn resolve_helper(name: &str, own: Option<&str>, in_usr_bin: bool, in_bin: bool) -> (r: String)
    ensures
        r@ == helper_path(name@, text::opt_str(own), in_usr_bin, in_bin),
{
    if let Some(p) = own {
        if !text::blank(p) {
            return p.to_owned();
        }
    }
    if in_usr_bin {
        text::concat("/usr/bin/", name)
    } else if in_bin {
        text::concat("/bin/", name)
    } else {
        name.to_owned()
    }
}

// ---------------------------------------------------------------------------
// Logs
// ---------------------------------------------------------------------------

/// How much of an untrusted text goes to the log, in characters.
pub const MAX_LOG_TEXT: usize = 500;

/// An untrusted text as it goes to the log.
pub open spec fn log_text(s: Seq<char>) -> Seq<char> {
    if s.len() <= MAX_LOG_TEXT {
        s
    } else {
        s.take(MAX_LOG_TEXT as int) + "\u{2026}[truncated "@ + text::dec(
            (s.len() - MAX_LOG_TEXT) as nat,
        ) + " chars]"@
    }
}

/// Cuts an untrusted text for the log.
pub fn truncate_log(s: &str) -> (r: String)
    ensures
        r@ == log_text(s@),
{
    let n: usize = text::len_chars(s);
    if n <= MAX_LOG_TEXT {
        return s.to_owned();
    }
    let mut r: String = text::take_chars(s, MAX_LOG_TEXT);
    r.append("\u{2026}[truncated ");
    r.append(text::decimal((n - MAX_LOG_TEXT) as u64).as_str());
    r.append(" chars]");
    r
}

// ---------------------------------------------------------------------------
// Polling
// ---------------------------------------------------------------------------

/// Two to the power of `n`.
pub open spec fn doubled(n: nat) -> nat
    decreases n,
{
    if n == 0 {
        1
    } else {
        2 * doubled((n - 1) as nat)
    }
}

/// The time between two polls of a source that failed so many times in a row: it
/// doubles with each failure, up to the longest time.
pub open spec fn backoff(base: nat, fail_streak: nat, max: nat) -> nat {
    let scaled = base * doubled(fail_streak);
    if scaled < max {
        scaled
    } else {
        max
    }
}

/// The time between two polls of a source, in the unit of `base` and `max`.
pub fn poll_backoff(base: u64, fail_streak: u32, max: u64) -> (r: u64)
    ensures
        r == backoff(base as nat, fail_streak as nat, max as nat),
{
    if base == 0 {
        assert(0 * doubled(fail_streak as nat) == 0);
        return 0;
    }
    let mut scaled: u64 = base;
    let mut n: u32 = 0;
    assert(doubled(0) == 1);
    assert(base * 1 == base);
    while n < fail_streak && scaled < max
        invariant
            n <= fail_streak,
            0 < base,
            scaled == base * doubled(n as nat),
        decreases fail_streak - n,
    {
        let twice: u128 = 2 * (scaled as u128);
        proof {
            let d = doubled(n as nat) as int;
            assert(base * (2 * d) == 2 * (base * d)) by (nonlinear_arith);
            assert(doubled((n + 1) as nat) == 2 * doubled(n as nat));
        }
        if twice >= max as u128 {
            proof {
                lemma_scaled_grows(base as nat, (n + 1) as nat, fail_streak as nat);
            }
            return max;
        }
        scaled = twice as u64;
        n = n + 1;
    }
    proof {
        lemma_scaled_grows(base as nat, n as nat, fail_streak as nat);
    }
    if scaled < max {
        scaled
    } else {
        max
    }
}

/// More failures do not make the time shorter.
proof fn lemma_scaled_grows(base: nat, n: nat, m: nat)
    requires
        n <= m,
    ensures
        base * doubled(n) <= base * doubled(m),
    decreases m - n,
{
    if n < m {
        lemma_scaled_grows(base, n, (m - 1) as nat);
        lemma_doubled_grows((m - 1) as nat);
        let a = doubled((m - 1) as nat);
        let b = doubled(m);
        assert(base * a <= base * b) by (nonlinear_arith)
            requires
                a <= b,
        ;
    }
}

proof fn lemma_doubled_grows(n: nat)
    ensures
        doubled(n) <= doubled(n + 1),
        1 <= doubled(n),
    decreases n,
{
    if n > 0 {
        lemma_doubled_grows((n - 1) as nat);
    }
}

/// The time between two polls is never longer than the longest, is the usual time
/// without failures, and never gets shorter with one more.
pub proof fn law_backoff_is_capped(base: nat, fail_streak: nat, max: nat)
    ensures
        backoff(base, fail_streak, max) <= max,
        backoff(base, 0, max) == (if base < max {
            base
        } else {
            max
        }),
        backoff(base, fail_streak, max) <= backoff(base, fail_streak + 1, max),
{
    lemma_scaled_grows(base, fail_streak, fail_streak + 1);
    assert(doubled(0) == 1);
    assert(base * 1 == base);
}

/// How long a subscription to signals is kept before it is renewed, in milliseconds.
pub const RENEW_INTERVAL_MS: u64 = 300000;

/// The health of a source that is polled.
#[derive(Clone, Copy, Debug, PartialEq, Eq, Structural)]
pub struct PollHealth {
    pub fail_streak: u32,
    /// The failure was told.
    pub warned: bool,
}

/// What there is to tell of a source.
#[derive(Clone, Copy, Debug, PartialEq, Eq, Structural)]
pub enum HealthNote {
    Nothing,
    Recovered,
    Degraded,
}

/// The health after a reading.
pub open spec fn health_after(h: PollHealth, healthy: bool) -> PollHealth {
    if healthy {
        PollHealth { fail_streak: 0, warned: false }
    } else {
        PollHealth {
            fail_streak: if h.fail_streak < u32::MAX {
                (h.fail_streak + 1) as u32
            } else {
                u32::MAX
            },
            warned: true,
        }
    }
}

/// What there is to tell after a reading: that the source works again after it
/// failed, or that it fails, once.
pub open spec fn note_after(h: PollHealth, healthy: bool) -> HealthNote {
    if healthy && h.fail_streak > 0 {
        HealthNote::Recovered
    } else if !healthy && !h.warned {
        HealthNote::Degraded
    } else {
        HealthNote::Nothing
    }
}

impl PollHealth {
    /// A source that did not fail yet.
    pub fn new() -> (r: Self)
        ensures
            r == (PollHealth { fail_streak: 0, warned: false }),
    {
        PollHealth { fail_streak: 0, warned: false }
    }

    /// Takes note of a reading.
    pub fn record(&mut self, healthy: bool) -> (r: HealthNote)
        ensures
            *final(self) == health_after(*old(self), healthy),
            r == note_after(*old(self), healthy),
    {
        if healthy {
            let failed: bool = self.fail_streak > 0;
            self.fail_streak = 0;
            self.warned = false;
            if failed {
                HealthNote::Recovered
            } else {
                HealthNote::Nothing
            }
        } else {
            let told: bool = self.warned;
            if self.fail_streak < u32::MAX {
                self.fail_streak = self.fail_streak + 1;
            }
            self.warned = true;
            if told {
                HealthNote::Nothing
            } else {
                HealthNote::Degraded
            }
        }
    }

    /// Whether the subscription to signals is renewed, so long after it was made: it is
    /// after a while, and after some failures in a row.
    pub fn renew_due(&self, elapsed_ms: u64) -> (r: bool)
        ensures
            r == (elapsed_ms >= RENEW_INTERVAL_MS || self.fail_streak >= 3),
    {
        elapsed_ms >= RENEW_INTERVAL_MS || self.fail_streak >= 3
    }

    /// The time until the next reading, in the unit of `base` and `max`.
    pub fn wait(&self, base: u64, max: u64) -> (r: u64)
        ensures
            r == backoff(base as nat, self.fail_streak as nat, max as nat),
    {
        poll_backoff(base, self.fail_streak, max)
    }
}

/// A source that fails over and over is told of once, until it works again.
pub proof fn law_failure_is_told_once(h: PollHealth)
    ensures
        note_after(health_after(h, false), false) == HealthNote::Nothing,
        note_after(health_after(h, false), true) == HealthNote::Recovered,
        note_after(health_after(h, true), false) == HealthNote::Degraded,
        note_after(health_after(h, true), true) == HealthNote::Nothing,
{
}

// ---------------------------------------------------------------------------
// Buttons
// ---------------------------------------------------------------------------

/// What the label of a module says: the icon and the text, on lines of their own in a
/// vertical bar, on one line in a horizontal one.
pub open spec fn combined_label(
    icon: Option<Seq<char>>,
    t: Option<Seq<char>>,
    orientation: Orientation,
) -> Seq<char> {
    let i = match icon {
        Some(s) => s,
        None => Seq::empty(),
    };
    let w = match t {
        Some(s) => s,
        None => Seq::empty(),
    };
    if i.len() > 0 && w.len() > 0 {
        if orientation == Orientation::Vertical {
            i + "\n"@ + w
        } else {
            i + " "@ + text::replaced(w, "\n"@, " "@)
        }
    } else if i.len() > 0 {
        i
    } else if orientation == Orientation::Horizontal && w.len() > 0 {
        text::replaced(w, "\n"@, " "@)
    } else {
        w
    }
}

/// A button that shows a module: the channel that its states are put into, and the
/// direction of its bar.
pub type ModuleSubscriber = (Sender<ModuleState>, Orientation);

/// The buttons that show a module.
pub type ModuleSubscribers = Vec<ModuleSubscriber>;

/// Adds a button with the two ends of its channel: the one that its states are put into
/// is kept, the other is handed out.
pub fn add_subscriber(
    subs: &mut ModuleSubscribers,
    tx: Sender<ModuleState>,
    rx: Receiver<ModuleState>,
    orientation: Orientation,
) -> (r: Receiver<ModuleState>)
    ensures
        final(subs)@ == old(subs)@.push((tx, orientation)),
        r == rx,
{
    subs.push((tx, orientation));
    rx
}

/// Adds a button to those that show a module, with a channel of its own. Returns the end
/// of the channel that its states are taken from.
pub fn subscribe_to(subs: &mut ModuleSubscribers, orientation: Orientation) -> (rx: Receiver<ModuleState>)
    ensures
        exists|tx: Sender<ModuleState>| final(subs)@ == #[trigger] old(subs)@.push((tx, orientation)),
{
    let (tx, rx) = async_channel::unbounded();
    add_subscriber(subs, tx, rx, orientation)
}

/// The states that are made for the directions of the buttons, one for each.
pub open spec fn made_for<F: Fn(Orientation) -> ModuleState>(
    states: Seq<ModuleState>,
    subs: Seq<ModuleSubscriber>,
    make: F,
) -> bool {
    states.len() == subs.len() && forall|i: int|
        0 <= i < states.len() ==> call_ensures(make, (subs[i].1,), #[trigger] states[i])
}

/// Makes the state of each button, by its direction.
pub fn states_for<F: Fn(Orientation) -> ModuleState>(subs: &ModuleSubscribers, make: F) -> (r: Vec<
    ModuleState,
>)
    requires
        forall|o: Orientation| #[trigger] call_requires(make, (o,)),
    ensures
        made_for(r@, subs@, make),
{
    let mut states: Vec<ModuleState> = Vec::new();
    let mut i: usize = 0;
    while i < subs.len()
        invariant
            i <= subs@.len(),
            states@.len() == i,
            forall|o: Orientation| #[trigger] call_requires(make, (o,)),
            forall|k: int| 0 <= k < i ==> call_ensures(make, (subs@[k].1,), #[trigger] states@[k]),
        decreases subs@.len() - i,
    {
        let state: ModuleState = make(subs[i].1);
        states.push(state);
        i = i + 1;
    }
    states
}

/// What becomes of the states that are put into the channels of the buttons, each into
/// the channel at its own place.
fn deliver_states(subs: &ModuleSubscribers, states: Vec<ModuleState>) -> (r: Vec<Delivery>)
    requires
        states@.len() == subs@.len(),
    ensures
        r@.len() == subs@.len(),
{
    let mut deliveries: Vec<Delivery> = Vec::new();
    let mut left: Vec<ModuleState> = states;
    let mut i: usize = 0;
    while i < subs.len()
        invariant
            i <= subs@.len(),
            left@.len() == subs@.len() - i,
            left@ == states@.skip(i as int),
            states@.len() == subs@.len(),
            deliveries@.len() == i,
        decreases subs@.len() - i,
    {
        let state: ModuleState = left.remove(0);
        assert(state == states@[i as int]);
        deliveries.push(util::deliver(&subs[i].0, state));
        assert(left@ =~= states@.skip(i + 1));
        i = i + 1;
    }
    deliveries
}

/// Sends each button the state that is made for its direction, and forgets those whose
/// channel is closed. What became of each message is for the channels to say.
pub fn broadcast<F: Fn(Orientation) -> ModuleState>(subs: &mut ModuleSubscribers, make: F)
    requires
        forall|o: Orientation| #[trigger] call_requires(make, (o,)),
    ensures
        exists|states: Seq<ModuleState>, deliveries: Seq<Delivery>|
            #[trigger] made_for(states, old(subs)@, make) && deliveries.len() == old(subs)@.len()
                && final(subs)@ == #[trigger] util::still_open(old(subs)@, deliveries),
{
    let states: Vec<ModuleState> = states_for(subs, make);
    let ghost made: Seq<ModuleState> = states@;
    let deliveries: Vec<Delivery> = deliver_states(subs, states);
    assert(made_for(made, old(subs)@, make));
    keep_open(subs, &deliveries);
}

/// A pointer over a button with these classes is shown as a hand.
pub open spec fn points(classes: Seq<Seq<char>>) -> bool {
    !(classes.contains("no-pointer"@) || classes.contains("no-hover"@) || classes.contains(
        "cursor-default"@,
    ) || (classes.contains("non-clickable"@) && !classes.contains("clickable"@)
        && !classes.contains("cursor-pointer"@)))
}

/// Whether a pointer over a button with these classes is shown as a hand.
pub fn hover_pointer(classes: &Vec<String>) -> (r: bool)
    ensures
        r == points(text::strs(classes@)),
{
    !(text::list_has(classes, "no-pointer") || text::list_has(classes, "no-hover") || text::list_has(
        classes,
        "cursor-default",
    ) || (text::list_has(classes, "non-clickable") && !text::list_has(classes, "clickable")
        && !text::list_has(classes, "cursor-pointer")))
}

/// A class that a module's button keeps whatever the module shows.
pub open spec fn lasting(name: Seq<char>) -> spec_fn(Seq<char>) -> bool {
    |c: Seq<char>|
        c == "module-item"@ || c == "module-"@ + name || c == "button"@ || c == "clickable"@ || c
            == "non-clickable"@ || c == "no-hover"@ || c == "no-pointer"@ || c == "cursor-default"@
            || c == "cursor-pointer"@
}

/// The button of a module: what its label says, whether the label is there, and its
/// classes.
#[derive(Clone, Debug)]
pub struct ModuleWidget {
    pub name: String,
    pub label: String,
    pub label_visible: bool,
    pub tooltip: Option<String>,
    pub classes: Vec<String>,
}

impl ModuleWidget {
    /// The button of a module that shows nothing yet.
    pub fn new(name: &str, clickable: bool) -> (r: Self)
        ensures
            r.name@ == name@,
            r.label@.len() == 0,
            !r.label_visible,
            r.tooltip is None,
            text::strs(r.classes@) == seq![
                "module-item"@,
                "module-"@ + name@,
                if clickable {
                    "clickable"@
                } else {
                    "non-clickable"@
                },
            ],
    {
        let mut classes: Vec<String> = Vec::new();
        classes.push("module-item".to_owned());
        classes.push(text::concat("module-", name));
        classes.push(
            if clickable {
                "clickable".to_owned()
            } else {
                "non-clickable".to_owned()
            },
        );
        assert(text::strs(classes@) =~= seq![
            "module-item"@,
            "module-"@ + name@,
            if clickable {
                "clickable"@
            } else {
                "non-clickable"@
            },
        ]);
        ModuleWidget {
            name: name.to_owned(),
            label: String::new(),
            label_visible: false,
            tooltip: None,
            classes,
        }
    }

    /// What the label of a module says.
    pub fn format_combined_label(
        icon: Option<&str>,
        text: Option<&str>,
        orientation: Orientation,
    ) -> (r: String)
        ensures
            r@ == combined_label(text::opt_str(icon), text::opt_str(text), orientation),
    {
        let none: &str = "";
        proof {
            reveal_strlit("");
            assert(none@ =~= Seq::empty());
        }
        let i: &str = match icon {
            Some(s) => s,
            None => none,
        };
        let w: &str = match text {
            Some(s) => s,
            None => none,
        };
        let has_icon: bool = text::len_chars(i) > 0;
        let has_text: bool = text::len_chars(w) > 0;
        if has_icon && has_text {
            let mut s: String = i.to_owned();
            if orientation == Orientation::Vertical {
                s.append("\n");
                s.append(w);
            } else {
                s.append(" ");
                s.append(text::replace(w, "\n", " ").as_str());
            }
            s
        } else if has_icon {
            i.to_owned()
        } else if orientation == Orientation::Horizontal && has_text {
            text::replace(w, "\n", " ")
        } else {
            w.to_owned()
        }
    }

    /// Shows a state: the label, which is hidden where it is empty and on a spacer,
    /// the tooltip, and the classes of the state beside those that last.
    pub fn apply_state(&mut self, state: &ModuleState, orientation: Orientation)
        ensures
            final(self).name == old(self).name,
            final(self).label@ == combined_label(
                text::opt(state.icon),
                text::opt(state.text),
                orientation,
            ),
            final(self).label_visible == (old(self).name@ != "spacer"@ && final(self).label@.len()
                > 0),
            text::opt(final(self).tooltip) == text::opt(state.tooltip),
            text::strs(final(self).classes@) == text::strs(old(self).classes@).filter(
                lasting(old(self).name@),
            ) + text::strs(state.css_classes@),
    {
        let icon: Option<&str> = match &state.icon {
            Some(s) => Some(s.as_str()),
            None => None,
        };
        let words: Option<&str> = match &state.text {
            Some(s) => Some(s.as_str()),
            None => None,
        };
        self.label = ModuleWidget::format_combined_label(icon, words, orientation);
        self.label_visible = !text::same(self.name.as_str(), "spacer") && text::len_chars(
            self.label.as_str(),
        ) > 0;
        self.tooltip = text::copy_opt(&state.tooltip);
        let own: String = text::concat("module-", self.name.as_str());
        let mut classes: Vec<String> = kept_classes(&self.classes, own.as_str(), self.name.as_str());
        let mut more: Vec<String> = text::copy_list(&state.css_classes);
        let ghost first: Seq<Seq<char>> = text::strs(classes@);
        let ghost second: Seq<Seq<char>> = text::strs(more@);
        classes.append(&mut more);
        assert(text::strs(classes@) =~= first + second);
        self.classes = classes;
    }
}

fn kept_classes(classes: &Vec<String>, own: &str, name: &str) -> (r: Vec<String>)
    requires
        own@ == "module-"@ + name@,
    ensures
        text::strs(r@) == text::strs(classes@).filter(lasting(name@)),
{
    let ghost all: Seq<Seq<char>> = text::strs(classes@);
    let ghost keep = lasting(name@);
    let mut r: Vec<String> = Vec::new();
    let mut i: usize = 0;
    assert(text::strs(r@) =~= all.take(0).filter(keep)) by {
        reveal(Seq::filter);
    }
    while i < classes.len()
        invariant
            i <= classes@.len(),
            all == text::strs(classes@),
            keep == lasting(name@),
            own@ == "module-"@ + name@,
            text::strs(r@) == all.take(i as int).filter(keep),
        decreases classes@.len() - i,
    {
        proof {
            reveal(Seq::filter);
            assert(all.take(i + 1).drop_last() =~= all.take(i as int));
            assert(all.take(i + 1).last() == classes@[i as int]@);
        }
        let c: &str = classes[i].as_str();
        if text::same(c, "module-item") || text::same(c, own) || text::same(c, "button") || text::same(
            c,
            "clickable",
        ) || text::same(c, "non-clickable") || text::same(c, "no-hover") || text::same(
            c,
            "no-pointer",
        ) || text::same(c, "cursor-default") || text::same(c, "cursor-pointer") {
            let ghost before: Seq<String> = r@;
            r.push(classes[i].clone());
            assert(text::strs(r@) =~= text::strs(before).push(classes@[i as int]@));
        }
        i = i + 1;
    }
    assert(all.take(i as int) =~= all);
    r
}

/// Whatever a module showed before, its button has the classes of what it shows now,
/// and of earlier ones only those that last.
pub proof fn law_old_classes_go(before: Seq<Seq<char>>, name: Seq<char>, now: Seq<Seq<char>>, c: Seq<char>)
    requires
        (before.filter(lasting(name)) + now).contains(c),
    ensures
        now.contains(c) || (before.contains(c) && lasting(name)(c)),
{
    let kept = before.filter(lasting(name));
    let all = kept + now;
    let i = choose|i: int| 0 <= i < all.len() && all[i] == c;
    if i < kept.len() {
        assert(kept[i] == c);
        assert(kept.contains(c));
        before.lemma_filter_contains_rev(lasting(name), c);
        before.filter_lemma(lasting(name));
    } else {
        assert(now[i - kept.len()] == c);
    }
}

// ---------------------------------------------------------------------------
// What a module shows and runs
// ---------------------------------------------------------------------------

/// What a state says is what it holds, part by part.
pub proof fn law_state_says_what_it_holds(s: ModuleState, i: int)
    ensures
        s.icon matches Some(t) ==> s.model().icon == Some(t@),
        s.icon is None ==> s.model().icon is None,
        s.text matches Some(t) ==> s.model().text == Some(t@),
        s.text is None ==> s.model().text is None,
        s.tooltip matches Some(t) ==> s.model().tooltip == Some(t@),
        s.tooltip is None ==> s.model().tooltip is None,
        s.model().classes.len() == s.css_classes@.len(),
        0 <= i < s.css_classes@.len() ==> s.model().classes[i] == s.css_classes@[i]@,
{
}

/// The class of a level tells its threshold; without a threshold there is none.
pub proof fn law_level_has_its_class(t: u32)
    ensures
        level_classes(Some(t)).len() == 1,
        level_classes(Some(t))[0] == "level-"@ + text::dec(t as nat),
        level_classes(None).len() == 0,
{
}

/// A command is run without the white space around it, and a blank one is not run.
pub proof fn law_commands_are_run_trimmed(c: Seq<char>)
    ensures
        (forall|i: int| 0 <= i < c.len() ==> text::is_white(#[trigger] c[i])) ==> runnable(Some(c)) is None,
        (exists|i: int| 0 <= i < c.len() && !text::is_white(#[trigger] c[i])) ==> runnable(Some(c)) == Some(
            text::trimmed(c),
        ),
        runnable(None) is None,
{
}

/// Each button runs its own command.
pub proof fn law_buttons_run_their_own_commands(click: ClickActions)
    ensures
        command_of(commands_of(click), MouseButton::Left) == text::opt(click.on_click_left),
        command_of(commands_of(click), MouseButton::Right) == text::opt(click.on_click_right),
        command_of(commands_of(click), MouseButton::Middle) == text::opt(click.on_click_middle),
        any_runnable(commands_of(click)) <==> runnable(text::opt(click.on_click_left)) is Some || runnable(
            text::opt(click.on_click_right),
        ) is Some || runnable(text::opt(click.on_click_middle)) is Some,
{
}

/// A helper program is where the environment says, else in the first directory that has it,
/// else found by its name.
pub proof fn law_helper_is_where_it_is_said_to_be(name: Seq<char>, own: Seq<char>, in_usr_bin: bool, in_bin: bool)
    ensures
        (exists|i: int| 0 <= i < own.len() && !text::is_white(#[trigger] own[i])) ==> helper_path(
            name,
            Some(own),
            in_usr_bin,
            in_bin,
        ) == own,
        (forall|i: int| 0 <= i < own.len() ==> text::is_white(#[trigger] own[i])) ==> helper_path(
            name,
            Some(own),
            in_usr_bin,
            in_bin,
        ) == helper_path(name, None, in_usr_bin, in_bin),
        helper_path(name, None, true, in_bin) == "/usr/bin/"@ + name,
        helper_path(name, None, false, true) == "/bin/"@ + name,
        helper_path(name, None, false, false) == name,
        helper_variable(name) == "NIRI_BAR_"@ + text::replaced(text::uppercase(name), "-"@, "_"@),
{
}

/// Of an untrusted text the log gets the first five hundred characters, and the number of
/// those that are left out.
pub proof fn law_log_gets_the_front(s: Seq<char>)
    ensures
        s.len() <= 500 ==> log_text(s) == s,
        s.len() > 500 ==> log_text(s) == s.take(500) + "\u{2026}[truncated "@ + text::dec((s.len() - 500) as nat)
            + " chars]"@,
{
}

/// Each further failure doubles the time between two polls, up to the longest.
pub proof fn law_failure_doubles_the_wait(base: nat, streak: nat, max: nat)
    ensures
        2 * backoff(base, streak, max) < max ==> backoff(base, streak + 1, max) == 2 * backoff(base, streak, max),
        2 * backoff(base, streak, max) >= max ==> backoff(base, streak + 1, max) == max,
{
    let d = doubled(streak);
    assert(doubled(streak + 1) == 2 * d);
    assert(base * (2 * d) == 2 * (base * d)) by (nonlinear_arith);
}

/// A failure makes the streak longer by one, and a reading that works ends it.
pub proof fn law_streak_counts_failures(h: PollHealth)
    ensures
        health_after(h, true).fail_streak == 0,
        h.fail_streak < u32::MAX ==> health_after(h, false).fail_streak == h.fail_streak + 1,
        h.fail_streak == u32::MAX ==> health_after(h, false).fail_streak == u32::MAX,
        h.fail_streak > 0 ==> note_after(h, true) is Recovered,
        h.fail_streak == 0 ==> note_after(h, true) is Nothing,
        h.warned ==> note_after(h, false) is Nothing,
        !h.warned ==> note_after(h, false) is Degraded,
{
}

/// Icon and text stand below each other in a vertical bar, and on one line in a horizontal
/// one, where line breaks become spaces. What is missing or empty is left out.
pub proof fn law_label_stands_as_the_bar_does(i: Seq<char>, w: Seq<char>, o: Orientation)
    requires
        i.len() > 0,
        w.len() > 0,
    ensures
        combined_label(Some(i), Some(w), Orientation::Vertical) == i + "\n"@ + w,
        combined_label(Some(i), Some(w), Orientation::Horizontal) == i + " "@ + text::replaced(w, "\n"@, " "@),
        combined_label(Some(i), None, o) == i,
        combined_label(None, Some(w), Orientation::Vertical) == w,
        combined_label(None, Some(w), Orientation::Horizontal) == text::replaced(w, "\n"@, " "@),
        combined_label(None, None, o).len() == 0,
        combined_label(Some(Seq::empty()), Some(w), o) == combined_label(None, Some(w), o),
        combined_label(Some(i), Some(Seq::empty()), o) == i,
{
}

/// A hand is shown over a button unless a class forbids it, or the button cannot be clicked
/// and no class says otherwise.
pub proof fn law_hand_is_shown_over_what_can_be_clicked(c: Seq<Seq<char>>)
    ensures
        c.contains("no-pointer"@) || c.contains("no-hover"@) || c.contains("cursor-default"@) ==> !points(c),
        !c.contains("no-pointer"@) && !c.contains("no-hover"@) && !c.contains("cursor-default"@) && !c.contains(
            "non-clickable"@,
        ) ==> points(c),
        !c.contains("no-pointer"@) && !c.contains("no-hover"@) && !c.contains("cursor-default"@) && (c.contains(
            "clickable"@,
        ) || c.contains("cursor-pointer"@)) ==> points(c),
        c.contains("non-clickable"@) && !c.contains("clickable"@) && !c.contains("cursor-pointer"@) ==> !points(c),
{
}

/// The classes of a button itself last, and those of its module; no others do.
pub proof fn law_own_classes_last(name: Seq<char>, c: Seq<char>)
    ensures
        lasting(name)(c) <==> c == "module-item"@ || c == "module-"@ + name || c == "button"@ || c == "clickable"@ || c
            == "non-clickable"@ || c == "no-hover"@ || c == "no-pointer"@ || c == "cursor-default"@ || c
            == "cursor-pointer"@,
{
}

/// Lasting classes stay, and the classes of a state are all there.
pub proof fn law_classes_of_now_are_there(before: Seq<Seq<char>>, name: Seq<char>, now: Seq<Seq<char>>, c: Seq<char>)
    ensures
        now.contains(c) ==> (before.filter(lasting(name)) + now).contains(c),
        before.contains(c) && lasting(name)(c) ==> (before.filter(lasting(name)) + now).contains(c),
{
    let kept = before.filter(lasting(name));
    let all = kept + now;
    if now.contains(c) {
        let i = choose|i: int| 0 <= i < now.len() && now[i] == c;
        assert(all[kept.len() + i] == c);
    }
    if before.contains(c) && lasting(name)(c) {
        let i = choose|i: int| 0 <= i < before.len() && before[i] == c;
        before.lemma_filter_contains(lasting(name), i);
        let j = choose|j: int| 0 <= j < kept.len() && kept[j] == c;
        assert(all[j] == c);
    }
}

/// Each button gets one state, made for its own direction.
pub proof fn law_state_is_made_for_its_button<F: Fn(Orientation) -> ModuleState>(
    states: Seq<ModuleState>,
    subs: Seq<ModuleSubscriber>,
    make: F,
    i: int,
)
    requires
        made_for(states, subs, make),
        0 <= i < subs.len(),
    ensures
        states.len() == subs.len(),
        call_ensures(make, (subs[i].1,), states[i]),
{
}

/// A subscription is renewed after five minutes.
pub proof fn law_subscription_lasts_five_minutes(elapsed_ms: u64)
    ensures
        elapsed_ms >= RENEW_INTERVAL_MS <==> elapsed_ms >= 5 * 60 * 1000,
{
}

} // verus!
