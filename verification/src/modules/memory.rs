//! The memory in use: how it is read, and what is shown of it.
use vstd::prelude::*;
use vstd::string::StringExecFns;

use crate::config::MemoryConfig;
use crate::modules;
use crate::modules::{BarModule, Commands, ModuleState, Orientation, StateModel};
use crate::text;

verus! {

/// The second word of a line, which is the figure that the line gives.
pub open spec fn second_word(line: Seq<char>) -> Option<Seq<char>> {
    let w = text::words(line);
    if w.len() > 1 {
        Some(w[1])
    } else {
        None
    }
}

/// The figures that the lines under a name give, in order.
pub open spec fn figures_named(lines: Seq<Seq<char>>, name: Seq<char>) -> Seq<Seq<char>>
    decreases lines.len(),
{
    if lines.len() == 0 {
        Seq::empty()
    } else {
        let before = figures_named(lines.drop_last(), name);
        if text::begins(lines.last(), name) {
            match second_word(lines.last()) {
                Some(w) => before.push(w),
                None => before,
            }
        } else {
            before
        }
    }
}

fn read_second_word(line: &str) -> (r: Option<String>)
    ensures
        text::opt(r) == second_word(line@),
{
    let w: Vec<String> = text::split_whitespace(line);
    if w.len() > 1 {
        assert(text::strs(w@)[1] == w@[1]@);
        Some(w[1].clone())
    } else {
        None
    }
}

fn read_figures(lines: &Vec<String>, name: &str) -> (r: Vec<String>)
    ensures
        text::strs(r@) == figures_named(text::strs(lines@), name@),
{
    let ghost all: Seq<Seq<char>> = text::strs(lines@);
    let mut r: Vec<String> = Vec::new();
    let mut i: usize = 0;
    assert(all.take(0) =~= Seq::empty());
    assert(text::strs(r@) =~= Seq::empty());
    while i < lines.len()
        invariant
            i <= lines@.len(),
            all == text::strs(lines@),
            text::strs(r@) == figures_named(all.take(i as int), name@),
        decreases lines@.len() - i,
    {
        assert(all.take(i + 1).drop_last() =~= all.take(i as int));
        assert(all.take(i + 1).last() == lines@[i as int]@);
        let line: &str = lines[i].as_str();
        if text::starts_with(line, name) {
            if let Some(w) = read_second_word(line) {
                let ghost before: Seq<String> = r@;
                r.push(w);
                assert(text::strs(r@) =~= text::strs(before).push(w@));
            }
        }
        i = i + 1;
    }
    assert(all.take(i as int) =~= all);
    r
}

/// The figures of the total memory and of the memory that is available, in KiB, as the
/// system's memory figures spell them.
pub fn parse_meminfo(content: &str) -> (r: (Vec<String>, Vec<String>))
    ensures
        text::strs(r.0@) == figures_named(text::lines_of(content@), "MemTotal:"@),
        text::strs(r.1@) == figures_named(text::lines_of(content@), "MemAvailable:"@),
{
    let lines: Vec<String> = text::lines(content);
    (read_figures(&lines, "MemTotal:"), read_figures(&lines, "MemAvailable:"))
}

/// What a figure is, once it has been read as a number.
#[derive(Debug, Clone, Copy, PartialEq, Eq, Structural)]
pub enum Figure {
    /// It is no number.
    Unreadable,
    /// A number above zero.
    Positive,
    /// Any other number.
    NotPositive,
}

/// The place of the last figure that is a number.
pub open spec fn last_readable(figures: Seq<Figure>) -> Option<int>
    decreases figures.len(),
{
    if figures.len() == 0 {
        None
    } else if figures.last() !is Unreadable {
        Some(figures.len() - 1)
    } else {
        last_readable(figures.drop_last())
    }
}

fn find_last_readable(figures: &Vec<Figure>) -> (r: Option<usize>)
    ensures
        match r {
            Some(i) => last_readable(figures@) == Some(i as int) && i < figures@.len(),
            None => last_readable(figures@) is None,
        },
{
    let mut n: usize = figures.len();
    assert(figures@.take(n as int) =~= figures@);
    while n > 0
        invariant
            n <= figures@.len(),
            last_readable(figures@.take(n as int)) == last_readable(figures@),
        decreases n,
    {
        assert(figures@.take(n as int).drop_last() =~= figures@.take(n - 1));
        assert(figures@.take(n as int).last() == figures@[n - 1]);
        match figures[n - 1] {
            Figure::Unreadable => {},
            _ => return Some(n - 1),
        }
        n = n - 1;
    }
    assert(figures@.take(0) =~= Seq::empty());
    None
}

/// The places of the figures that count: of each name the last one that is a number.
/// The memory is known only where the total is above zero; where nothing says what is
/// available, nothing is.
pub fn choose_figures(totals: &Vec<Figure>, available: &Vec<Figure>) -> (r: Option<(
    usize,
    Option<usize>,
)>)
    ensures
        r is Some <==> (last_readable(totals@) matches Some(t) && totals@[t] is Positive),
        r matches Some((t, a)) ==> {
            &&& last_readable(totals@) == Some(t as int)
            &&& match a {
                Some(i) => last_readable(available@) == Some(i as int),
                None => last_readable(available@) is None,
            }
        },
{
    match find_last_readable(totals) {
        Some(t) => match totals[t] {
            Figure::Positive => Some((t, find_last_readable(available))),
            _ => None,
        },
        None => None,
    }
}

/// The last figure that is a number is one, and none after it is.
pub proof fn law_last_figure_counts(figures: Seq<Figure>)
    ensures
        match last_readable(figures) {
            Some(i) => 0 <= i < figures.len() && figures[i] !is Unreadable && (forall|j: int|
                i < j < figures.len() ==> #[trigger] figures[j] is Unreadable),
            None => forall|j: int| 0 <= j < figures.len() ==> #[trigger] figures[j] is Unreadable,
        },
    decreases figures.len(),
{
    if figures.len() > 0 && figures.last() is Unreadable {
        law_last_figure_counts(figures.drop_last());
        assert forall|j: int| 0 <= j < figures.len() - 1 implies figures[j]
            == figures.drop_last()[j] by {}
    }
}

/// What is shown of the memory, by the texts of the memory in use, of all memory, and
/// of the part in use in percent.
pub open spec fn memory_state(format: Seq<char>, used: Seq<char>, total: Seq<char>, percent: Seq<char>) -> StateModel {
    StateModel {
        icon: None,
        text: Some(
            text::replaced(
                text::replaced(text::replaced(format, "%u"@, used), "%t"@, total),
                "%p"@,
                percent,
            ),
        ),
        tooltip: Some(used + "G / "@ + total + "G ("@ + percent + "%)"@),
        classes: Seq::empty(),
    }
}

/// What is shown where the memory cannot be read.
pub open spec fn unavailable() -> StateModel {
    StateModel {
        icon: None,
        text: Some("\u{2014}"@),
        tooltip: Some("Memory unavailable"@),
        classes: seq!["unavailable"@],
    }
}

/// The memory in use.
#[derive(Debug, Clone)]
pub struct MemoryModule {
    pub config: MemoryConfig,
}

impl MemoryModule {
    /// A memory module with a configuration.
    pub fn new(config: MemoryConfig) -> (r: Self)
        ensures
            r.config == config,
    {
        MemoryModule { config }
    }

    /// What is shown of the memory, by the texts of its figures.
    pub fn format_state_static(
        config: &MemoryConfig,
        used: &str,
        total: &str,
        percent: &str,
        _orientation: Orientation,
    ) -> (r: ModuleState)
        ensures
            r.model() == memory_state(config.format@, used@, total@, percent@),
    {
        let with_used: String = text::replace(config.format.as_str(), "%u", used);
        let with_total: String = text::replace(with_used.as_str(), "%t", total);
        let formatted: String = text::replace(with_total.as_str(), "%p", percent);
        let mut tooltip: String = used.to_owned();
        tooltip.append("G / ");
        tooltip.append(total);
        tooltip.append("G (");
        tooltip.append(percent);
        tooltip.append("%)");
        let r: ModuleState = ModuleState {
            icon: None,
            text: Some(formatted),
            tooltip: Some(tooltip),
            css_classes: Vec::new(),
        };
        assert(r.model().classes =~= Seq::empty());
        r
    }

    /// What is shown now: `figures` holds the texts of the memory in use, of all memory,
    /// and of the part in use in percent, where they are known.
    pub fn current_state(
        &self,
        figures: Option<(&str, &str, &str)>,
        orientation: Orientation,
    ) -> (r: ModuleState)
        ensures
            r.model() == (match figures {
                Some((u, t, p)) => memory_state(self.config.format@, u@, t@, p@),
                None => unavailable(),
            }),
    {
        match figures {
            Some((u, t, p)) => MemoryModule::format_state_static(&self.config, u, t, p, orientation),
            None => {
                let mut css_classes: Vec<String> = Vec::new();
                css_classes.push("unavailable".to_owned());
                let r: ModuleState = ModuleState {
                    icon: None,
                    text: Some("\u{2014}".to_owned()),
                    tooltip: Some("Memory unavailable".to_owned()),
                    css_classes,
                };
                assert(r.model().classes =~= seq!["unavailable"@]);
                r
            },
        }
    }
}

impl BarModule for MemoryModule {
    open spec fn commands(&self) -> Commands {
        modules::commands_of(self.config.click)
    }

    open spec fn acts_by_itself(&self) -> bool {
        false
    }

    open spec fn title(&self) -> Seq<char> {
        "memory"@
    }

    fn name(&self) -> (r: &'static str) {
        "memory"
    }

    fn click_commands(&self) -> (r: (Option<&str>, Option<&str>, Option<&str>)) {
        self.config.click.commands()
    }

    fn has_default_action(&self) -> (r: bool) {
        false
    }
}

/// A figure is the second word of a line that begins with its name; other lines give none.
pub proof fn law_figures_stand_behind_their_names(lines: Seq<Seq<char>>, line: Seq<char>, name: Seq<char>)
    ensures
        !text::begins(line, name) ==> figures_named(lines.push(line), name) == figures_named(lines, name),
        text::begins(line, name) && text::words(line).len() > 1 ==> figures_named(lines.push(line), name)
            == figures_named(lines, name).push(text::words(line)[1]),
        text::words(line).len() <= 1 ==> figures_named(lines.push(line), name) == figures_named(lines, name),
        figures_named(Seq::empty(), name).len() == 0,
{
    assert(lines.push(line).drop_last() =~= lines);
}

/// What is shown of the memory is the format with its figures in place of their marks; on
/// hover the memory in use, all memory, and the part in use.
pub proof fn law_memory_is_shown_by_its_format(
    format: Seq<char>,
    used: Seq<char>,
    total: Seq<char>,
    percent: Seq<char>,
    r: ModuleState,
)
    requires
        r.model() == memory_state(format, used, total, percent),
    ensures
        r.text is Some && r.text->0@ == text::replaced(
            text::replaced(text::replaced(format, "%u"@, used), "%t"@, total),
            "%p"@,
            percent,
        ),
        r.tooltip is Some && r.tooltip->0@ == used + "G / "@ + total + "G ("@ + percent + "%)"@,
        r.icon is None,
        r.css_classes@.len() == 0,
{
    assert(r.model().classes.len() == r.css_classes@.len());
}

/// Where the memory cannot be read, a dash is shown, and the tooltip says so.
pub proof fn law_unknown_memory_is_told(r: ModuleState)
    requires
        r.model() == unavailable(),
    ensures
        r.text is Some && r.text->0@ == "\u{2014}"@,
        r.tooltip is Some && r.tooltip->0@ == "Memory unavailable"@,
        r.css_classes@.len() == 1 && r.css_classes@[0]@ == "unavailable"@,
{
    assert(r.model().classes.len() == r.css_classes@.len());
    assert(r.model().classes[0] == r.css_classes@[0]@);
}

/// The module goes by its name, runs the commands of its section, and nothing by itself.
pub proof fn law_memory_runs_its_commands(m: MemoryModule)
    ensures
        m.title() == "memory"@,
        !m.acts_by_itself(),
        m.commands().0 == text::opt(m.config.click.on_click_left),
        m.commands().1 == text::opt(m.config.click.on_click_right),
        m.commands().2 == text::opt(m.config.click.on_click_middle),
{
}

} // verus!
