//! Starting and running: arguments, errors that are shown, the font, files that are
//! watched, and monitors that come and go.
use vstd::prelude::*;
use vstd::string::StringExecFns;

use crate::paths;
use crate::text;

verus! {

// ---------------------------------------------------------------------------
// Arguments
// ---------------------------------------------------------------------------

/// What the arguments ask for.
#[derive(Debug, Clone, Copy, PartialEq, Eq, Structural)]
pub enum EarlyAction {
    Run,
    Version,
    Help,
    Check,
}

/// What one argument asks for.
pub open spec fn action_of(arg: Seq<char>) -> EarlyAction {
    if arg == "--version"@ || arg == "-V"@ {
        EarlyAction::Version
    } else if arg == "--help"@ || arg == "-h"@ {
        EarlyAction::Help
    } else if arg == "--check"@ {
        EarlyAction::Check
    } else {
        EarlyAction::Run
    }
}

/// What arguments ask for: what the first one asks for that asks for anything.
pub open spec fn first_action(args: Seq<Seq<char>>) -> EarlyAction
    decreases args.len(),
{
    if args.len() == 0 {
        EarlyAction::Run
    } else if action_of(args[0]) != EarlyAction::Run {
        action_of(args[0])
    } else {
        first_action(args.drop_first())
    }
}

fn read_action(arg: &str) -> (r: EarlyAction)
    ensures
        r == action_of(arg@),
{
    if text::same(arg, "--version") || text::same(arg, "-V") {
        EarlyAction::Version
    } else if text::same(arg, "--help") || text::same(arg, "-h") {
        EarlyAction::Help
    } else if text::same(arg, "--check") {
        EarlyAction::Check
    } else {
        EarlyAction::Run
    }
}

/// What the arguments behind the name of the program ask for.
pub fn parse_early_args(args: &[String]) -> (r: EarlyAction)
    requires
        args@.len() > 0,
    ensures
        r == first_action(text::strs(args@).skip(1)),
{
    let ghost all: Seq<Seq<char>> = text::strs(args@);
    let mut i: usize = 1;
    while i < args.len()
        invariant
            1 <= i <= args@.len(),
            all == text::strs(args@),
            first_action(all.skip(i as int)) == first_action(all.skip(1)),
        decreases args@.len() - i,
    {
        assert(all.skip(i as int)[0] == args@[i as int]@);
        assert(all.skip(i as int).drop_first() =~= all.skip(i + 1));
        let a: EarlyAction = read_action(args[i].as_str());
        if a != EarlyAction::Run {
            return a;
        }
        i = i + 1;
    }
    EarlyAction::Run
}

/// The help text of a version.
pub open spec fn help(version: Seq<char>) -> Seq<char> {
    "niri-bar v"@ + version
        + "\n\nUSAGE:\n    niri-bar [OPTIONS]\n\nOPTIONS:\n    -h, --help       Print this help\n    -V, --version    Print version\n        --check      Validate config + CSS and exit (0 ok, 1 error)\n\nENV:\n    NIRI_SOCKET      Niri IPC socket (set by Niri)\n    NIRI_BAR_DEBUG=1 Verbose debug logs\n    RUST_LOG=debug   Verbose debug logs\n\nCONFIG:\n    ~/.config/niri-bar/config.toml (see resources/config.default.toml)\n    ~/.config/niri-bar/style.css"@
}

/// The help text of a version.
pub fn help_text(version: &str) -> (r: String)
    ensures
        r@ == help(version@),
{
    let mut s: String = "niri-bar v".to_owned();
    s.append(version);
    s.append(
        "\n\nUSAGE:\n    niri-bar [OPTIONS]\n\nOPTIONS:\n    -h, --help       Print this help\n    -V, --version    Print version\n        --check      Validate config + CSS and exit (0 ok, 1 error)\n\nENV:\n    NIRI_SOCKET      Niri IPC socket (set by Niri)\n    NIRI_BAR_DEBUG=1 Verbose debug logs\n    RUST_LOG=debug   Verbose debug logs\n\nCONFIG:\n    ~/.config/niri-bar/config.toml (see resources/config.default.toml)\n    ~/.config/niri-bar/style.css",
    );
    s
}

/// The reply of the session bus to the request for the name of the bar.
#[derive(Debug, Clone, Copy, PartialEq, Eq, Structural)]
pub enum NameReply {
    /// There is no bus, or it did not answer.
    NoAnswer,
    /// The answer holds no number.
    Unreadable,
    Code(u32),
}

/// Whether this is the only bar: its name is its own, or there is no bus that could
/// tell.
pub fn is_single_instance(reply: NameReply) -> (r: bool)
    ensures
        r == (reply == NameReply::NoAnswer || reply == NameReply::Code(1)),
{
    match reply {
        NameReply::NoAnswer => true,
        NameReply::Unreadable => false,
        NameReply::Code(c) => c == 1,
    }
}

// ---------------------------------------------------------------------------
// Errors
// ---------------------------------------------------------------------------

/// A file that is watched.
#[derive(Debug, Clone, Copy, PartialEq, Eq, Structural)]
pub enum WatchTarget {
    Config,
    Style,
}

/// The errors of the configuration and of the style sheet that stand. Each has its
/// own place: mending one leaves the other.
#[derive(Debug, Clone, PartialEq, Eq)]
pub struct ActiveError {
    pub config: Option<String>,
    pub style: Option<String>,
}

impl Default for ActiveError {
    fn default() -> (r: Self)
        ensures
            r.config is None,
            r.style is None,
    {
        ActiveError { config: None, style: None }
    }
}

impl ActiveError {
    /// The error that is shown.
    pub open spec fn shown(self) -> Option<Seq<char>> {
        match self.config {
            Some(e) => Some(e@),
            None => text::opt(self.style),
        }
    }

    /// The error in the place of a file.
    pub open spec fn slot(self, target: WatchTarget) -> Option<Seq<char>> {
        match target {
            WatchTarget::Config => text::opt(self.config),
            WatchTarget::Style => text::opt(self.style),
        }
    }

    /// The error that is shown: that of the configuration comes first.
    pub fn message(&self) -> (r: Option<&str>)
        ensures
            text::opt_str(r) == self.shown(),
    {
        match &self.config {
            Some(e) => Some(e.as_str()),
            None => match &self.style {
                Some(e) => Some(e.as_str()),
                None => None,
            },
        }
    }

    /// Whether there is no error.
    pub fn is_empty(&self) -> (r: bool)
        ensures
            r == (self.config is None && self.style is None),
            r == self.shown() is None,
    {
        self.config.is_none() && self.style.is_none()
    }

    /// Takes note of the error of a file, or that it has none.
    pub fn set(&mut self, target: WatchTarget, error: Option<String>)
        ensures
            final(self).slot(target) == text::opt(error),
            forall|t: WatchTarget| t != target ==> #[trigger] final(self).slot(t) == old(self).slot(t),
    {
        match target {
            WatchTarget::Config => {
                self.config = error;
            },
            WatchTarget::Style => {
                self.style = error;
            },
        }
    }
}

/// Where both files have an error, that of the style sheet is shown once the
/// configuration is mended, and that of the configuration stays once the style sheet
/// is mended.
pub proof fn law_mending_one_file_leaves_the_other(before: ActiveError, after: ActiveError, target: WatchTarget)
    requires
        before.config is Some,
        before.style is Some,
        after.slot(target) is None,
        forall|t: WatchTarget| t != target ==> #[trigger] after.slot(t) == before.slot(t),
    ensures
        after.shown() is Some,
        after.shown() == (match target {
            WatchTarget::Config => text::opt(before.style),
            WatchTarget::Style => text::opt(before.config),
        }),
{
    assert(after.slot(WatchTarget::Config) == text::opt(after.config));
    assert(after.slot(WatchTarget::Style) == text::opt(after.style));
    assert(before.slot(WatchTarget::Config) == text::opt(before.config));
    assert(before.slot(WatchTarget::Style) == text::opt(before.style));
}

// ---------------------------------------------------------------------------
// Files
// ---------------------------------------------------------------------------

/// The watched file with a name.
pub open spec fn target_named(name: Option<Seq<char>>) -> Option<WatchTarget> {
    match name {
        Some(n) => if n == "config.toml"@ {
            Some(WatchTarget::Config)
        } else if n == "style.css"@ {
            Some(WatchTarget::Style)
        } else {
            None
        },
        None => None,
    }
}

/// The watched file that a change of two files is about: the first where it is one,
/// else the second.
pub open spec fn target_of(file: Option<Seq<char>>, other: Option<Seq<char>>) -> Option<WatchTarget> {
    match target_named(file) {
        Some(t) => Some(t),
        None => target_named(other),
    }
}

/// The name of a watched file.
pub open spec fn target_name(t: WatchTarget) -> Seq<char> {
    match t {
        WatchTarget::Config => "config.toml"@,
        WatchTarget::Style => "style.css"@,
    }
}

impl WatchTarget {
    /// The name of this file.
    pub fn name(&self) -> (r: &'static str)
        ensures
            r@ == target_name(*self),
    {
        match self {
            WatchTarget::Config => "config.toml",
            WatchTarget::Style => "style.css",
        }
    }
}

fn read_target(name: Option<&str>) -> (r: Option<WatchTarget>)
    ensures
        r == target_named(text::opt_str(name)),
{
    match name {
        Some(n) => {
            if text::same(n, "config.toml") {
                Some(WatchTarget::Config)
            } else if text::same(n, "style.css") {
                Some(WatchTarget::Style)
            } else {
                None
            }
        },
        None => None,
    }
}

/// The watched file that a change is about.
pub fn watch_target(file_basename: Option<&str>, other_basename: Option<&str>) -> (r: Option<WatchTarget>)
    ensures
        r == target_of(text::opt_str(file_basename), text::opt_str(other_basename)),
{
    match read_target(file_basename) {
        Some(t) => Some(t),
        None => read_target(other_basename),
    }
}

/// The name of the watched file that a change is about.
pub fn watch_target_for_filenames(
    file_basename: Option<&str>,
    other_basename: Option<&str>,
) -> (r: Option<&'static str>)
    ensures
        text::opt_str(r) == (match target_of(
            text::opt_str(file_basename),
            text::opt_str(other_basename),
        ) {
            Some(t) => Some(target_name(t)),
            None => None,
        }),
{
    match watch_target(file_basename, other_basename) {
        Some(t) => Some(t.name()),
        None => None,
    }
}

/// What happened to a file.
#[derive(Debug, Clone, Copy, PartialEq, Eq, Structural)]
pub enum FileChange {
    Changed,
    Created,
    ChangesDone,
    AttributeChanged,
    Moved,
    MovedIn,
    Renamed,
    Deleted,
    MovedOut,
    Other,
}

/// What follows from a change of a file.
#[derive(Debug, Clone, PartialEq, Eq)]
pub enum WatchReaction {
    Ignore,
    /// The file is gone, which is its error from now on.
    Gone(WatchTarget, String),
    /// The file is read anew after a moment without further changes.
    ReloadSoon(WatchTarget),
}

/// What follows from a change of a file: nothing, unless a watched file changed; it is
/// read anew, unless it is gone.
pub fn on_file_change(
    change: FileChange,
    file_basename: Option<&str>,
    other_basename: Option<&str>,
) -> (r: WatchReaction)
    ensures
        match target_of(text::opt_str(file_basename), text::opt_str(other_basename)) {
            Some(t) => match change {
                FileChange::Other => r is Ignore,
                FileChange::Deleted | FileChange::MovedOut => r matches WatchReaction::Gone(g, words)
                    && g == t && words@ == target_name(t) + " was deleted"@,
                _ => r matches WatchReaction::ReloadSoon(g) && g == t,
            },
            None => r is Ignore,
        },
{
    match watch_target(file_basename, other_basename) {
        Some(t) => match change {
            FileChange::Other => WatchReaction::Ignore,
            FileChange::Deleted | FileChange::MovedOut => WatchReaction::Gone(
                t,
                text::concat(t.name(), " was deleted"),
            ),
            _ => WatchReaction::ReloadSoon(t),
        },
        None => WatchReaction::Ignore,
    }
}

/// How long a file must stay unchanged before it is read anew, in milliseconds.
pub const DEBOUNCE_MS: u64 = 100;

/// The times at which the watched files are read anew.
#[derive(Debug, Clone, Copy, PartialEq, Eq, Structural)]
pub struct ReloadTimers {
    pub config: Option<u64>,
    pub style: Option<u64>,
}

impl ReloadTimers {
    /// The time at which a file is read anew.
    pub open spec fn at(self, t: WatchTarget) -> Option<u64> {
        match t {
            WatchTarget::Config => self.config,
            WatchTarget::Style => self.style,
        }
    }

    /// No file is to be read anew.
    pub fn new() -> (r: Self)
        ensures
            r.config is None,
            r.style is None,
    {
        ReloadTimers { config: None, style: None }
    }

    /// A file changed at a time: it is read anew a moment later, and not before. The
    /// other file is left as it is.
    pub fn changed(&mut self, target: WatchTarget, now: u64)
        requires
            now <= u64::MAX - DEBOUNCE_MS,
        ensures
            final(self).at(target) == Some((now + DEBOUNCE_MS) as u64),
            forall|t: WatchTarget| t != target ==> #[trigger] final(self).at(t) == old(self).at(t),
    {
        match target {
            WatchTarget::Config => {
                self.config = Some(now + DEBOUNCE_MS);
            },
            WatchTarget::Style => {
                self.style = Some(now + DEBOUNCE_MS);
            },
        }
    }

    /// Whether a file is to be read at a time. Where it is, it is not to be read again.
    pub fn fire(&mut self, target: WatchTarget, now: u64) -> (r: bool)
        ensures
            r == (match old(self).at(target) {
                Some(t) => t <= now,
                None => false,
            }),
            final(self).at(target) == (if r {
                None
            } else {
                old(self).at(target)
            }),
            forall|t: WatchTarget| t != target ==> #[trigger] final(self).at(t) == old(self).at(t),
    {
        let when: Option<u64> = match target {
            WatchTarget::Config => self.config,
            WatchTarget::Style => self.style,
        };
        let due: bool = match when {
            Some(t) => t <= now,
            None => false,
        };
        if due {
            match target {
                WatchTarget::Config => {
                    self.config = None;
                },
                WatchTarget::Style => {
                    self.style = None;
                },
            }
        }
        due
    }
}

// ---------------------------------------------------------------------------
// Monitors
// ---------------------------------------------------------------------------

/// A monitor that is connected: what tells it from others, and its width, which is
/// zero until it is set up.
#[derive(Debug, Clone, Copy, PartialEq, Eq, Structural)]
pub struct ConnectedMonitor {
    pub id: u64,
    pub width: i32,
}

/// What makes the bars match the monitors: the positions of the bars that go, the
/// monitors that get a bar, and whether a monitor is not set up yet.
#[derive(Debug, Clone, PartialEq, Eq)]
pub struct MonitorPlan {
    pub close: Vec<usize>,
    pub open: Vec<u64>,
    pub has_unready: bool,
}

/// A monitor with this id is connected and set up.
pub open spec fn ready(monitors: Seq<ConnectedMonitor>, id: u64) -> bool {
    exists|i: int| 0 <= i < monitors.len() && (#[trigger] monitors[i]).id == id && monitors[i].width > 0
}

/// Any monitor that is set up.
pub open spec fn is_ready() -> spec_fn(ConnectedMonitor) -> bool {
    |m: ConnectedMonitor| m.width > 0
}

/// The ids of the monitors that are set up, in their order.
pub open spec fn ready_ids(monitors: Seq<ConnectedMonitor>) -> Seq<u64> {
    monitors.filter(is_ready()).map_values(|m: ConnectedMonitor| m.id)
}

/// Any monitor that has no bar.
pub open spec fn without_bar(bars: Seq<u64>) -> spec_fn(u64) -> bool {
    |id: u64| !bars.contains(id)
}

fn ready_list(monitors: &Vec<ConnectedMonitor>) -> (r: Vec<u64>)
    ensures
        r@ == ready_ids(monitors@),
        forall|id: u64| r@.contains(id) == ready(monitors@, id),
{
    let mut r: Vec<u64> = Vec::new();
    let mut i: usize = 0;
    let ghost id_of = |m: ConnectedMonitor| m.id;
    proof {
        reveal(Seq::filter);
        assert(monitors@.take(0).filter(is_ready()).map_values(id_of) =~= Seq::empty());
    }
    while i < monitors.len()
        invariant
            i <= monitors@.len(),
            id_of == (|m: ConnectedMonitor| m.id),
            r@ == monitors@.take(i as int).filter(is_ready()).map_values(id_of),
            forall|id: u64| #[trigger]
                r@.contains(id) == exists|k: int|
                    0 <= k < i && (#[trigger] monitors@[k]).id == id && monitors@[k].width > 0,
        decreases monitors@.len() - i,
    {
        let ghost before: Seq<u64> = r@;
        let ghost kept: Seq<ConnectedMonitor> = monitors@.take(i as int).filter(is_ready());
        proof {
            reveal(Seq::filter);
            assert(monitors@.take(i + 1).drop_last() =~= monitors@.take(i as int));
            assert(monitors@.take(i + 1).last() == monitors@[i as int]);
        }
        if monitors[i].width > 0 {
            r.push(monitors[i].id);
            proof {
                let all = monitors@.take(i + 1).filter(is_ready());
                assert(all =~= kept.push(monitors@[i as int]));
                assert(r@ =~= all.map_values(id_of));
            }
        }
        proof {
            assert forall|id: u64| #[trigger] r@.contains(id) == exists|k: int|
                0 <= k < i + 1 && (#[trigger] monitors@[k]).id == id && monitors@[k].width > 0 by {
                if r@.contains(id) {
                    let p = choose|p: int| 0 <= p < r@.len() && r@[p] == id;
                    if p < before.len() {
                        assert(before[p] == id);
                        assert(before.contains(id));
                        let k = choose|k: int|
                            0 <= k < i && (#[trigger] monitors@[k]).id == id && monitors@[k].width > 0;
                        assert(monitors@[k].id == id);
                    } else {
                        assert(monitors@[i as int].id == id);
                    }
                }
                if exists|k: int|
                    0 <= k < i + 1 && (#[trigger] monitors@[k]).id == id && monitors@[k].width > 0 {
                    let k = choose|k: int|
                        0 <= k < i + 1 && (#[trigger] monitors@[k]).id == id && monitors@[k].width > 0;
                    if k < i {
                        assert(before.contains(id));
                        let p = choose|p: int| 0 <= p < before.len() && before[p] == id;
                        assert(r@[p] == id);
                    } else {
                        assert(r@[before.len() as int] == id);
                    }
                }
            }
        }
        i = i + 1;
    }
    proof {
        assert(monitors@.take(i as int) =~= monitors@);
        assert(r@ =~= ready_ids(monitors@));
    }
    r
}

fn holds(v: &Vec<u64>, id: u64) -> (r: bool)
    ensures
        r == v@.contains(id),
{
    let mut i: usize = 0;
    while i < v.len()
        invariant
            i <= v@.len(),
            forall|j: int| 0 <= j < i ==> v@[j] != id,
        decreases v@.len() - i,
    {
        if v[i] == id {
            return true;
        }
        i = i + 1;
    }
    false
}

/// What makes the bars match the monitors. `bars` holds the monitor of each bar. A bar
/// goes where its monitor is gone or not set up; a monitor that is set up gets a bar
/// where it has none.
pub fn plan_monitors(monitors: &Vec<ConnectedMonitor>, bars: &Vec<u64>) -> (r: MonitorPlan)
    ensures
        forall|i: int|
            0 <= i < r.close@.len() ==> (#[trigger] r.close@[i]) < bars@.len() && !ready(
                monitors@,
                bars@[r.close@[i] as int],
            ),
        forall|k: int|
            0 <= k < bars@.len() && !ready(monitors@, #[trigger] bars@[k]) ==> r.close@.contains(
                k as usize,
            ),
        forall|i: int, j: int| 0 <= i < j < r.close@.len() ==> r.close@[i] < r.close@[j],
        r.open@ == ready_ids(monitors@).filter(without_bar(bars@)),
        r.has_unready == exists|i: int|
            0 <= i < monitors@.len() && (#[trigger] monitors@[i]).width <= 0,
{
    let current: Vec<u64> = ready_list(monitors);
    let mut close: Vec<usize> = Vec::new();
    let mut i: usize = 0;
    while i < bars.len()
        invariant
            i <= bars@.len(),
            forall|id: u64| current@.contains(id) == ready(monitors@, id),
            forall|j: int|
                0 <= j < close@.len() ==> (#[trigger] close@[j]) < i && !ready(
                    monitors@,
                    bars@[close@[j] as int],
                ),
            forall|k: int|
                0 <= k < i && !ready(monitors@, #[trigger] bars@[k]) ==> close@.contains(k as usize),
            forall|a: int, b: int| 0 <= a < b < close@.len() ==> close@[a] < close@[b],
        decreases bars@.len() - i,
    {
        if !holds(&current, bars[i]) {
            let ghost before: Seq<usize> = close@;
            close.push(i);
            proof {
                assert(close@[before.len() as int] == i);
                assert forall|k: int|
                    0 <= k < i + 1 && !ready(monitors@, #[trigger] bars@[k]) implies close@.contains(
                    k as usize,
                ) by {
                    if k < i {
                        assert(before.contains(k as usize));
                        let p = choose|p: int| 0 <= p < before.len() && before[p] == k as usize;
                        assert(close@[p] == k as usize);
                    }
                }
            }
        }
        i = i + 1;
    }
    let ghost wanted: Seq<u64> = ready_ids(monitors@);
    let mut open: Vec<u64> = Vec::new();
    let mut k: usize = 0;
    assert(open@ =~= wanted.take(0).filter(without_bar(bars@))) by {
        reveal(Seq::filter);
    }
    while k < current.len()
        invariant
            k <= current@.len(),
            wanted == current@,
            open@ == wanted.take(k as int).filter(without_bar(bars@)),
        decreases current@.len() - k,
    {
        proof {
            reveal(Seq::filter);
            assert(wanted.take(k + 1).drop_last() =~= wanted.take(k as int));
            assert(wanted.take(k + 1).last() == current@[k as int]);
        }
        if !holds(bars, current[k]) {
            open.push(current[k]);
        }
        k = k + 1;
    }
    assert(wanted.take(k as int) =~= wanted);
    let mut has_unready: bool = false;
    let mut m: usize = 0;
    while m < monitors.len()
        invariant
            m <= monitors@.len(),
            has_unready == exists|i: int| 0 <= i < m && (#[trigger] monitors@[i]).width <= 0,
        decreases monitors@.len() - m,
    {
        if monitors[m].width <= 0 {
            has_unready = true;
            assert(monitors@[m as int].width <= 0);
        }
        m = m + 1;
    }
    MonitorPlan { close, open, has_unready }
}

/// After the plan is carried out, a monitor has a bar if and only if it is connected
/// and set up.
pub proof fn law_bars_match_monitors(monitors: Seq<ConnectedMonitor>, bars: Seq<u64>, kept: Seq<u64>, id: u64)
    requires
        forall|b: u64| #[trigger] kept.contains(b) == (bars.contains(b) && ready(monitors, b)),
    ensures
        (kept + ready_ids(monitors).filter(without_bar(bars))).contains(id) == ready(monitors, id),
{
    let opened = ready_ids(monitors).filter(without_bar(bars));
    let all = kept + opened;
    lemma_ready_ids(monitors, id);
    ready_ids(monitors).filter_lemma(without_bar(bars));
    if all.contains(id) {
        let p = choose|p: int| 0 <= p < all.len() && all[p] == id;
        if p < kept.len() {
            assert(kept[p] == id);
            assert(kept.contains(id));
        } else {
            assert(opened[p - kept.len()] == id);
            assert(opened.contains(id));
            ready_ids(monitors).lemma_filter_contains_rev(without_bar(bars), id);
        }
    }
    if ready(monitors, id) {
        if bars.contains(id) {
            assert(kept.contains(id));
            let p = choose|p: int| 0 <= p < kept.len() && kept[p] == id;
            assert(all[p] == id);
        } else {
            assert(ready_ids(monitors).contains(id));
            let q = choose|q: int| 0 <= q < ready_ids(monitors).len() && ready_ids(monitors)[q] == id;
            assert(without_bar(bars)(ready_ids(monitors)[q]));
            assert(opened.contains(ready_ids(monitors)[q]));
            let p = choose|p: int| 0 <= p < opened.len() && opened[p] == id;
            assert(all[kept.len() + p] == id);
        }
    }
}

proof fn lemma_ready_ids(monitors: Seq<ConnectedMonitor>, id: u64)
    ensures
        ready_ids(monitors).contains(id) == ready(monitors, id),
{
    let up = monitors.filter(is_ready());
    monitors.filter_lemma(is_ready());
    if ready_ids(monitors).contains(id) {
        let p = choose|p: int| 0 <= p < ready_ids(monitors).len() && ready_ids(monitors)[p] == id;
        assert(up.contains(up[p]));
        monitors.lemma_filter_contains_rev(is_ready(), up[p]);
        assert(is_ready()(up[p]));
        let k = choose|k: int| 0 <= k < monitors.len() && monitors[k] == up[p];
        assert(monitors[k].id == id);
    }
    if ready(monitors, id) {
        let k = choose|k: int|
            0 <= k < monitors.len() && (#[trigger] monitors[k]).id == id && monitors[k].width > 0;
        assert(is_ready()(monitors[k]));
        assert(up.contains(monitors[k]));
        let p = choose|p: int| 0 <= p < up.len() && up[p] == monitors[k];
        assert(ready_ids(monitors)[p] == id);
    }
}

/// Whether the bars are being matched to the monitors, and whether they are to be
/// matched again after that.
#[derive(Debug, Clone, Copy, PartialEq, Eq, Structural)]
pub struct ReconcileFlags {
    pub busy: bool,
    pub again: bool,
}

impl ReconcileFlags {
    /// Nothing is going on.
    pub fn new() -> (r: Self)
        ensures
            r == (ReconcileFlags { busy: false, again: false }),
    {
        ReconcileFlags { busy: false, again: false }
    }

    /// The bars are to be matched. Says whether to start now; while that is going on,
    /// it is to be done once more.
    pub fn request(&mut self) -> (start: bool)
        ensures
            start == !old(self).busy,
            *final(self) == after_request(*old(self)),
    {
        if self.busy {
            self.again = true;
            false
        } else {
            self.busy = true;
            true
        }
    }

    /// The bars were matched. Says whether to start once more.
    pub fn finished(&mut self) -> (again: bool)
        ensures
            again == old(self).again,
            *final(self) == after_finish(*old(self)),
    {
        let again: bool = self.again;
        self.again = false;
        if !again {
            self.busy = false;
        }
        again
    }
}

/// The flags after a request.
pub open spec fn after_request(f: ReconcileFlags) -> ReconcileFlags {
    ReconcileFlags { busy: true, again: f.again || f.busy }
}

/// The flags after the bars were matched.
pub open spec fn after_finish(f: ReconcileFlags) -> ReconcileFlags {
    ReconcileFlags { busy: f.busy && f.again, again: false }
}

/// However many requests come while the bars are being matched, they are matched once
/// more after that, and then no more.
pub proof fn law_requests_are_not_lost(f: ReconcileFlags)
    requires
        f.busy,
    ensures
        after_request(f).again,
        after_request(after_request(f)) == after_request(f),
        after_finish(after_request(f)).busy,
        !after_finish(after_finish(after_request(f))).busy,
{
}

// ---------------------------------------------------------------------------
// The font
// ---------------------------------------------------------------------------

/// Where the font of the bar is put: its directory and its file.
#[derive(Debug)]
pub struct FontPlace {
    pub dir: String,
    pub file: String,
}

/// The directory of the user's data: `XDG_DATA_HOME`, else `.local/share` in the home
/// directory.
pub open spec fn data_dir(xdg: Option<Seq<char>>, home: Option<Seq<char>>) -> Option<Seq<char>> {
    match xdg {
        Some(dir) => Some(dir),
        None => match home {
            Some(dir) => Some(paths::joined(dir, ".local/share"@)),
            None => None,
        },
    }
}

/// The directory of the font under the directory of the user's data.
pub open spec fn font_dir(data: Seq<char>) -> Seq<char> {
    paths::joined(data, "fonts/niri-bar"@)
}

/// Where the font is put, by the environment's `XDG_DATA_HOME` and `HOME`: nowhere
/// where neither is set.
pub fn font_place(xdg_data_home: Option<&str>, home: Option<&str>) -> (r: Option<FontPlace>)
    ensures
        match data_dir(text::opt_str(xdg_data_home), text::opt_str(home)) {
            Some(data) => r is Some && r->0.dir@ == font_dir(data) && r->0.file@ == paths::joined(
                font_dir(data),
                "NerdFont-Regular.ttf"@,
            ),
            None => r is None,
        },
{
    let data: String = match xdg_data_home {
        Some(dir) => dir.to_owned(),
        None => match home {
            Some(dir) => paths::join(dir, ".local/share"),
            None => return None,
        },
    };
    let dir: String = paths::join(data.as_str(), "fonts/niri-bar");
    let file: String = paths::join(dir.as_str(), "NerdFont-Regular.ttf");
    Some(FontPlace { dir, file })
}

/// Whether the font has to be written: where there is no file, or one of another
/// length. `found` is the length of the file in its place, `own` that of the font.
pub fn font_is_due(found: Option<u64>, own: u64) -> (r: bool)
    ensures
        r == (found != Some(own)),
{
    match found {
        Some(n) => n != own,
        None => true,
    }
}

// ---------------------------------------------------------------------------
// What holds of starting and running
// ---------------------------------------------------------------------------

/// An argument that the program knows.
pub open spec fn known(arg: Seq<char>) -> bool {
    arg == "--version"@ || arg == "-V"@ || arg == "--help"@ || arg == "-h"@ || arg == "--check"@
}

/// The first argument that the program knows decides, whatever stands around it; without one the
/// program runs.
pub proof fn law_first_known_argument_decides(args: Seq<Seq<char>>, i: int)
    requires
        0 <= i <= args.len(),
        forall|j: int| 0 <= j < i ==> !known(#[trigger] args[j]),
        i < args.len() ==> known(args[i]),
    ensures
        i == args.len() ==> first_action(args) == EarlyAction::Run,
        i < args.len() ==> {
            &&& first_action(args) == EarlyAction::Version <==> (args[i] == "--version"@ || args[i]
                == "-V"@)
            &&& first_action(args) == EarlyAction::Help <==> (args[i] == "--help"@ || args[i]
                == "-h"@)
            &&& first_action(args) == EarlyAction::Check <==> args[i] == "--check"@
        },
    decreases args.len(),
{
    reveal_strlit("--version");
    reveal_strlit("-V");
    reveal_strlit("--help");
    reveal_strlit("-h");
    reveal_strlit("--check");
    assert("-V"@[1] == 'V' && "-h"@[1] == 'h');
    assert("--version"@.len() == 9 && "-V"@.len() == 2 && "--help"@.len() == 6 && "-h"@.len() == 2
        && "--check"@.len() == 7);
    if i > 0 {
        let rest = args.drop_first();
        assert(!known(args[0]));
        assert forall|j: int| 0 <= j < i - 1 implies !known(#[trigger] rest[j]) by {
            assert(rest[j] == args[j + 1]);
        }
        if i < args.len() {
            assert(rest[i - 1] == args[i]);
        }
        law_first_known_argument_decides(rest, i - 1);
    }
}

/// The help text starts with the name and the version.
pub proof fn law_help_starts_with_the_version(version: Seq<char>)
    ensures
        ("niri-bar v"@ + version).is_prefix_of(help(version)),
{
    assert(help(version).take(("niri-bar v"@ + version).len() as int) =~= "niri-bar v"@ + version);
}

/// The error of the configuration is shown before that of the style sheet.
pub proof fn law_configuration_error_comes_first(e: ActiveError, words: String)
    ensures
        e.config == Some(words) ==> e.shown() == Some(words@),
        e.config is None && e.style == Some(words) ==> e.shown() == Some(words@),
        e.shown() is None <==> e.config is None && e.style is None,
{
}

/// What is noted of one file stands in its own place, and the place of the other is left as it
/// was.
pub proof fn law_each_file_has_its_own_error(
    before: ActiveError,
    after: ActiveError,
    target: WatchTarget,
    error: Option<String>,
)
    requires
        after.slot(target) == text::opt(error),
        forall|t: WatchTarget| t != target ==> #[trigger] after.slot(t) == before.slot(t),
    ensures
        target == WatchTarget::Config ==> text::opt(after.config) == text::opt(error) && text::opt(
            after.style,
        ) == text::opt(before.style),
        target == WatchTarget::Style ==> text::opt(after.style) == text::opt(error) && text::opt(
            after.config,
        ) == text::opt(before.config),
{
    assert(after.slot(WatchTarget::Config) == text::opt(after.config));
    assert(after.slot(WatchTarget::Style) == text::opt(after.style));
    assert(before.slot(WatchTarget::Config) == text::opt(before.config));
    assert(before.slot(WatchTarget::Style) == text::opt(before.style));
}

/// The configuration and the style sheet are told by their names, each of which gives back its
/// file; of two names the first that is one of them counts.
pub proof fn law_watched_files_are_told_by_name(
    file: Option<Seq<char>>,
    other: Option<Seq<char>>,
    t: WatchTarget,
)
    ensures
        target_of(Some("config.toml"@), other) == Some(WatchTarget::Config),
        target_of(Some("style.css"@), other) == Some(WatchTarget::Style),
        file != Some("config.toml"@) && file != Some("style.css"@) ==> {
            &&& target_of(file, Some("config.toml"@)) == Some(WatchTarget::Config)
            &&& target_of(file, Some("style.css"@)) == Some(WatchTarget::Style)
            &&& target_of(file, None) is None
            &&& other != Some("config.toml"@) && other != Some("style.css"@) ==> target_of(
                file,
                other,
            ) is None
        },
        target_of(Some(target_name(t)), other) == Some(t),
        target_name(WatchTarget::Config) == "config.toml"@,
        target_name(WatchTarget::Style) == "style.css"@,
{
    reveal_strlit("config.toml");
    reveal_strlit("style.css");
    assert("config.toml"@.len() == 11 && "style.css"@.len() == 9);
}

/// A file that changed is read a tenth of a second later; the timer of the other file is left as
/// it was.
pub proof fn law_file_is_read_a_moment_later(
    before: ReloadTimers,
    after: ReloadTimers,
    target: WatchTarget,
    now: u64,
)
    requires
        now <= u64::MAX - 100,
        after.at(target) == Some((now + DEBOUNCE_MS) as u64),
        forall|t: WatchTarget| t != target ==> #[trigger] after.at(t) == before.at(t),
    ensures
        target == WatchTarget::Config ==> after.config == Some((now + 100) as u64) && after.style
            == before.style,
        target == WatchTarget::Style ==> after.style == Some((now + 100) as u64) && after.config
            == before.config,
{
    assert(after.at(WatchTarget::Config) == after.config);
    assert(after.at(WatchTarget::Style) == after.style);
    assert(before.at(WatchTarget::Config) == before.config);
    assert(before.at(WatchTarget::Style) == before.style);
}

/// The monitors that get a bar are those with a width, in their order: one more comes last.
pub proof fn law_monitors_with_a_width_are_ready(monitors: Seq<ConnectedMonitor>, m: ConnectedMonitor)
    ensures
        ready_ids(Seq::empty()) == Seq::<u64>::empty(),
        m.width > 0 ==> ready_ids(monitors.push(m)) == ready_ids(monitors).push(m.id),
        m.width <= 0 ==> ready_ids(monitors.push(m)) == ready_ids(monitors),
{
    reveal(Seq::filter);
    let id_of = |m: ConnectedMonitor| m.id;
    assert(monitors.push(m).drop_last() =~= monitors);
    assert(monitors.push(m).last() == m);
    assert(Seq::<ConnectedMonitor>::empty().filter(is_ready()) =~= Seq::empty());
    assert(ready_ids(Seq::empty()) =~= Seq::<u64>::empty());
    if m.width > 0 {
        let up = monitors.filter(is_ready());
        assert(monitors.push(m).filter(is_ready()) =~= up.push(m));
        assert(up.push(m).map_values(id_of) =~= up.map_values(id_of).push(m.id));
        assert(ready_ids(monitors.push(m)) =~= ready_ids(monitors).push(m.id));
    }
}

/// A monitor gets a bar where it is connected with a width and has none.
pub proof fn law_new_monitors_get_a_bar(monitors: Seq<ConnectedMonitor>, bars: Seq<u64>, id: u64)
    ensures
        ready_ids(monitors).filter(without_bar(bars)).contains(id) <==> !bars.contains(id) && exists|
            i: int,
        |
            0 <= i < monitors.len() && (#[trigger] monitors[i]).id == id && monitors[i].width > 0,
{
    let ids = ready_ids(monitors);
    lemma_ready_ids(monitors, id);
    ids.filter_lemma(without_bar(bars));
    if ids.filter(without_bar(bars)).contains(id) {
        ids.lemma_filter_contains_rev(without_bar(bars), id);
        let p = choose|p: int|
            0 <= p < ids.filter(without_bar(bars)).len() && ids.filter(without_bar(bars))[p] == id;
        assert(without_bar(bars)(ids.filter(without_bar(bars))[p]));
    }
    if !bars.contains(id) && ready(monitors, id) {
        let q = choose|q: int| 0 <= q < ids.len() && ids[q] == id;
        assert(without_bar(bars)(ids[q]));
    }
}

/// A request starts the work or, while it goes on, asks for it once more; work that is done
/// starts over only where that was asked for.
pub proof fn law_flags_say_what_is_to_be_done(f: ReconcileFlags)
    ensures
        after_request(f).busy,
        !f.busy ==> after_request(f).again == f.again,
        f.busy ==> after_request(f).again,
        !after_finish(f).again,
        f.again ==> after_finish(f).busy == f.busy,
        !f.again ==> !after_finish(f).busy,
{
}

/// The font stands under the directory of the user's data, else under that of the home
/// directory.
pub proof fn law_font_is_in_the_users_data(xdg: Seq<char>, home: Option<Seq<char>>, dir: Seq<char>)
    ensures
        data_dir(Some(xdg), home) == Some(xdg),
        data_dir(None, Some(dir)) == Some(paths::joined(dir, ".local/share"@)),
        data_dir(None, None) is None,
        font_dir(xdg) == paths::joined(xdg, "fonts/niri-bar"@),
{
}

} // verus!
