//! The clock: what it shows, and when it is to be shown anew.
use vstd::prelude::*;

use crate::config::ClockConfig;
use crate::local_time;
use crate::local_time::LocalTime;
use crate::modules;
use crate::modules::{BarModule, Commands, ModuleState, Orientation, StateModel};
use crate::text;

verus! {

/// The parts of a format whose text can change within a minute: seconds and what holds
/// them, with every padding, and fractions of a second with every number of digits.
pub open spec fn second_parts() -> Seq<Seq<char>> {
    seq![
        "%S"@, "%s"@, "%T"@, "%r"@, "%X"@, "%c"@, "%+"@, "%N"@, "%f"@,
        "%-S"@, "%_S"@, "%0S"@, "%-s"@, "%_s"@, "%0s"@, "%-f"@, "%_f"@, "%0f"@,
        "%.f"@, "%.3f"@, "%.6f"@, "%.9f"@, "%3f"@, "%6f"@, "%9f"@,
    ]
}

/// A format holds a part whose text can change within a minute.
pub open spec fn has_seconds(fmt: Seq<char>) -> bool {
    exists|i: int| 0 <= i < second_parts().len() && text::has(fmt, #[trigger] second_parts()[i])
}

fn shows_seconds(fmt: &str) -> (r: bool)
    ensures
        r == has_seconds(fmt@),
{
    let parts: Vec<String> = vec![
        "%S".to_owned(),
        "%s".to_owned(),
        "%T".to_owned(),
        "%r".to_owned(),
        "%X".to_owned(),
        "%c".to_owned(),
        "%+".to_owned(),
        "%N".to_owned(),
        "%f".to_owned(),
        "%-S".to_owned(),
        "%_S".to_owned(),
        "%0S".to_owned(),
        "%-s".to_owned(),
        "%_s".to_owned(),
        "%0s".to_owned(),
        "%-f".to_owned(),
        "%_f".to_owned(),
        "%0f".to_owned(),
        "%.f".to_owned(),
        "%.3f".to_owned(),
        "%.6f".to_owned(),
        "%.9f".to_owned(),
        "%3f".to_owned(),
        "%6f".to_owned(),
        "%9f".to_owned(),
    ];
    assert(text::strs(parts@) =~= second_parts());
    let mut i: usize = 0;
    while i < parts.len()
        invariant
            i <= parts@.len(),
            text::strs(parts@) == second_parts(),
            forall|k: int| 0 <= k < i ==> !text::has(fmt@, #[trigger] second_parts()[k]),
        decreases parts@.len() - i,
    {
        assert(second_parts()[i as int] == parts@[i as int]@);
        if text::contains(fmt, parts[i].as_str()) {
            return true;
        }
        i = i + 1;
    }
    assert(second_parts().len() == parts@.len());
    false
}

/// Whether the text of one of two formats can change within a minute.
pub fn needs_per_second_tick(fmt_vert: &str, fmt_horiz: &str) -> (r: bool)
    ensures
        r == (has_seconds(fmt_vert@) || has_seconds(fmt_horiz@)),
{
    shows_seconds(fmt_vert) || shows_seconds(fmt_horiz)
}

/// When the clock is shown anew: each second or each minute.
#[derive(Debug, Clone, Copy, PartialEq, Eq, Structural)]
pub struct ClockTicker {
    pub per_second: bool,
    pub last: Option<u32>,
}

impl ClockTicker {
    /// A clock that was not shown yet.
    pub fn new(config: &ClockConfig) -> (r: Self)
        ensures
            r.per_second == (has_seconds(config.format_vertical@) || has_seconds(
                config.format_horizontal@,
            )),
            r.last is None,
    {
        ClockTicker {
            per_second: needs_per_second_tick(
                config.format_vertical.as_str(),
                config.format_horizontal.as_str(),
            ),
            last: None,
        }
    }

    /// Whether the clock is shown anew at a second and a minute: where the one that
    /// counts is another than the last time.
    pub fn tick(&mut self, second: u32, minute: u32) -> (due: bool)
        ensures
            ({
                let now = if old(self).per_second {
                    second
                } else {
                    minute
                };
                due == (old(self).last != Some(now)) && final(self).last == Some(now)
            }),
            final(self).per_second == old(self).per_second,
    {
        let now: u32 = if self.per_second {
            second
        } else {
            minute
        };
        let due: bool = match self.last {
            Some(t) => t != now,
            None => true,
        };
        self.last = Some(now);
        due
    }

    /// How long to wait before looking at the clock again, in milliseconds.
    pub fn interval_ms(&self) -> (r: u64)
        ensures
            r == (if self.per_second {
                250
            } else {
                1000int
            }),
    {
        if self.per_second {
            250
        } else {
            1000
        }
    }
}

/// The format of the tooltip.
pub open spec fn tooltip_format() -> Seq<char> {
    "%A, %d %B (%m) %Y, %H:%M"@
}

/// The format for the direction of a bar.
pub open spec fn format_for(config: ClockConfig, orientation: Orientation) -> Seq<char> {
    if orientation == Orientation::Vertical {
        config.format_vertical@
    } else {
        config.format_horizontal@
    }
}

/// What a clock shows, by the texts of the time and of the tooltip.
pub open spec fn clock_state(time: Seq<char>, tooltip: Seq<char>) -> StateModel {
    StateModel { icon: None, text: Some(time), tooltip: Some(tooltip), classes: Seq::empty() }
}

/// What a clock shows, by the texts of the time and of the tooltip.
pub fn show_clock(time: String, tooltip: String) -> (r: ModuleState)
    ensures
        r.model() == clock_state(time@, tooltip@),
{
    let r: ModuleState = ModuleState {
        icon: None,
        text: Some(time),
        tooltip: Some(tooltip),
        css_classes: Vec::new(),
    };
    assert(r.model().classes =~= Seq::empty());
    r
}

/// The clock.
#[derive(Debug, Clone)]
pub struct ClockModule {
    pub config: ClockConfig,
}

impl ClockModule {
    /// A clock with a configuration.
    pub fn new(config: ClockConfig) -> (r: Self)
        ensures
            r.config == config,
    {
        ClockModule { config }
    }

    /// What the clock shows at a time; `None` where its format cannot be used.
    pub fn current_state(&self, now: &LocalTime, orientation: Orientation) -> (r: Option<ModuleState>)
        ensures
            ({
                let time = local_time::local_text(
                    now.secs,
                    now.nanos,
                    now.offset,
                    format_for(self.config, orientation),
                );
                let tooltip = local_time::local_text(
                    now.secs,
                    now.nanos,
                    now.offset,
                    tooltip_format(),
                );
                match r {
                    Some(s) => time is Some && tooltip is Some && s.model() == clock_state(
                        time->0,
                        tooltip->0,
                    ),
                    None => time is None || tooltip is None,
                }
            }),
    {
        let fmt: &str = if orientation == Orientation::Vertical {
            self.config.format_vertical.as_str()
        } else {
            self.config.format_horizontal.as_str()
        };
        let time: Option<String> = now.format(fmt);
        let tooltip: Option<String> = now.format("%A, %d %B (%m) %Y, %H:%M");
        match (time, tooltip) {
            (Some(t), Some(tip)) => Some(show_clock(t, tip)),
            _ => None,
        }
    }
}

impl BarModule for ClockModule {
    open spec fn commands(&self) -> Commands {
        modules::commands_of(self.config.click)
    }

    open spec fn acts_by_itself(&self) -> bool {
        false
    }

    open spec fn title(&self) -> Seq<char> {
        "clock"@
    }

    fn name(&self) -> (r: &'static str) {
        "clock"
    }

    fn click_commands(&self) -> (r: (Option<&str>, Option<&str>, Option<&str>)) {
        self.config.click.commands()
    }

    fn has_default_action(&self) -> (r: bool) {
        false
    }
}

/// A format shows seconds if and only if it holds one of the parts that do, wherever it
/// stands.
pub proof fn law_seconds_are_shown_by_their_parts(a: Seq<char>, b: Seq<char>, i: int)
    requires
        0 <= i < second_parts().len(),
    ensures
        has_seconds(a + second_parts()[i] + b),
        second_parts() == seq![
            "%S"@, "%s"@, "%T"@, "%r"@, "%X"@, "%c"@, "%+"@, "%N"@, "%f"@,
            "%-S"@, "%_S"@, "%0S"@, "%-s"@, "%_s"@, "%0s"@, "%-f"@, "%_f"@, "%0f"@,
            "%.f"@, "%.3f"@, "%.6f"@, "%.9f"@, "%3f"@, "%6f"@, "%9f"@,
        ],
{
    text::law_occurrence_is_between_front_and_rest(a, second_parts()[i], b);
}

/// A format without a percent sign shows no seconds.
pub proof fn law_plain_formats_show_no_seconds(fmt: Seq<char>)
    requires
        forall|i: int| 0 <= i < fmt.len() ==> #[trigger] fmt[i] != '%',
    ensures
        !has_seconds(fmt),
{
    reveal_strlit("%S");
    reveal_strlit("%s");
    reveal_strlit("%T");
    reveal_strlit("%r");
    reveal_strlit("%X");
    reveal_strlit("%c");
    reveal_strlit("%+");
    reveal_strlit("%N");
    reveal_strlit("%f");
    reveal_strlit("%-S");
    reveal_strlit("%_S");
    reveal_strlit("%0S");
    reveal_strlit("%-s");
    reveal_strlit("%_s");
    reveal_strlit("%0s");
    reveal_strlit("%-f");
    reveal_strlit("%_f");
    reveal_strlit("%0f");
    reveal_strlit("%.f");
    reveal_strlit("%.3f");
    reveal_strlit("%.6f");
    reveal_strlit("%.9f");
    reveal_strlit("%3f");
    reveal_strlit("%6f");
    reveal_strlit("%9f");
    if has_seconds(fmt) {
        let i = choose|i: int| 0 <= i < second_parts().len() && text::has(fmt, #[trigger] second_parts()[i]);
        let part = second_parts()[i];
        assert(part.len() > 0 && part[0] == '%');
        let k = choose|k: int| text::occurs_at(fmt, part, k);
        assert(fmt.subrange(k, k + part.len())[0] == fmt[k]);
    }
}

/// A vertical bar has the vertical format, and a horizontal one the horizontal.
pub proof fn law_format_goes_by_the_bar(config: ClockConfig)
    ensures
        format_for(config, Orientation::Vertical) == config.format_vertical@,
        format_for(config, Orientation::Horizontal) == config.format_horizontal@,
        tooltip_format() == "%A, %d %B (%m) %Y, %H:%M"@,
{
}

/// The clock shows the time, and the date on hover.
pub proof fn law_clock_shows_the_time(time: Seq<char>, tooltip: Seq<char>, r: ModuleState)
    requires
        r.model() == clock_state(time, tooltip),
    ensures
        r.text is Some && r.text->0@ == time,
        r.tooltip is Some && r.tooltip->0@ == tooltip,
        r.icon is None,
        r.css_classes@.len() == 0,
{
    assert(r.model().classes.len() == r.css_classes@.len());
}

/// The module goes by its name, runs the commands of its section, and nothing by itself.
pub proof fn law_clock_runs_its_commands(m: ClockModule)
    ensures
        m.title() == "clock"@,
        !m.acts_by_itself(),
        m.commands().0 == text::opt(m.config.click.on_click_left),
        m.commands().1 == text::opt(m.config.click.on_click_right),
        m.commands().2 == text::opt(m.config.click.on_click_middle),
{
}

} // verus!
