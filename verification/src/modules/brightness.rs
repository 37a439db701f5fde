//! The brightness of the screen: how it is read, shown and set.
use vstd::prelude::*;

use crate::config;
use crate::config::{resolve_level, BrightnessConfig};
use crate::modules;
use crate::modules::{push_level, BarModule, Commands, ModuleState, Orientation, ScrollDirection, StateModel};
use crate::text;

verus! {

// ---------------------------------------------------------------------------
// Devices
// ---------------------------------------------------------------------------

/// A backlight as the system lists it. What cannot be read of it is missing.
#[derive(Debug, Clone)]
pub struct Backlight {
    pub name: String,
    pub brightness: Option<String>,
    pub max_brightness: Option<String>,
}

/// The number that a file of the system holds.
pub open spec fn number_in(content: Option<Seq<char>>) -> Option<nat> {
    match content {
        Some(s) => text::parsed(text::trimmed(s), 10, u64::MAX as nat),
        None => None,
    }
}

/// The backlight can be used: both its numbers can be read, and the larger one is not
/// zero.
pub open spec fn usable(b: Backlight) -> bool {
    number_in(text::opt(b.brightness)) is Some && match number_in(text::opt(b.max_brightness)) {
        Some(max) => max > 0,
        None => false,
    }
}

/// The position of the first backlight that can be used.
pub open spec fn first_usable(v: Seq<Backlight>, from: int) -> Option<int>
    decreases v.len() - from,
{
    if from < 0 || from >= v.len() {
        None
    } else if usable(v[from]) {
        Some(from)
    } else {
        first_usable(v, from + 1)
    }
}

fn read_number(content: &Option<String>) -> (r: Option<u64>)
    ensures
        match r {
            Some(n) => number_in(text::opt(*content)) == Some(n as nat),
            None => number_in(text::opt(*content)) is None,
        },
{
    match content {
        Some(s) => text::parse_number(text::trim(s.as_str()).as_str(), 10, u64::MAX),
        None => None,
    }
}

/// The first backlight that can be used: its name, its brightness and the largest one
/// that it has.
pub fn get_backlight_device(devices: &Vec<Backlight>) -> (r: Option<(String, u64, u64)>)
    ensures
        match first_usable(devices@, 0) {
            Some(i) => r matches Some((name, cur, max)) && name@ == devices@[i].name@ && number_in(
                text::opt(devices@[i].brightness),
            ) == Some(cur as nat) && number_in(text::opt(devices@[i].max_brightness)) == Some(
                max as nat,
            ) && max > 0,
            None => r is None,
        },
{
    let mut i: usize = 0;
    while i < devices.len()
        invariant
            i <= devices@.len(),
            first_usable(devices@, i as int) == first_usable(devices@, 0),
        decreases devices@.len() - i,
    {
        let d: &Backlight = &devices[i];
        let cur: Option<u64> = read_number(&d.brightness);
        let max: Option<u64> = read_number(&d.max_brightness);
        if let (Some(c), Some(m)) = (cur, max) {
            if m > 0 {
                return Some((d.name.clone(), c, m));
            }
        }
        i = i + 1;
    }
    None
}

/// A character that the name of a backlight may hold.
pub open spec fn name_char(c: char) -> bool {
    ('a' as int <= c as int <= 'z' as int) || ('A' as int <= c as int <= 'Z' as int) || ('0' as int
        <= c as int <= '9' as int) || c == '-' || c == '_' || c == ':' || c == '.'
}

/// A name that a backlight may have.
pub open spec fn good_name(name: Seq<char>) -> bool {
    name.len() > 0 && forall|i: int| 0 <= i < name.len() ==> name_char(#[trigger] name[i])
}

fn is_name_char(c: char) -> (r: bool)
    ensures
        r == name_char(c),
{
    ('a' <= c && c <= 'z') || ('A' <= c && c <= 'Z') || ('0' <= c && c <= '9') || c == '-' || c == '_'
        || c == ':' || c == '.'
}

fn is_good_name(name: &str) -> (r: bool)
    ensures
        r == good_name(name@),
{
    let cs: Vec<char> = text::chars_of(name);
    let mut i: usize = 0;
    while i < cs.len()
        invariant
            cs@ == name@,
            i <= cs@.len(),
            forall|k: int| 0 <= k < i ==> name_char(#[trigger] cs@[k]),
        decreases cs@.len() - i,
    {
        if !is_name_char(cs[i]) {
            assert(!name_char(name@[i as int]));
            return false;
        }
        i = i + 1;
    }
    cs.len() > 0
}

/// The units that a backlight is set to: at least one, and no more than it has.
pub open spec fn clamped(units: nat, max: nat) -> nat {
    if units < 1 {
        1
    } else if units > max {
        max
    } else {
        units
    }
}

/// The arguments of the program that sets a backlight.
pub open spec fn set_args(device: Seq<char>, units: nat) -> Seq<Seq<char>> {
    seq![
        "call"@,
        "org.freedesktop.login1"@,
        "/org/freedesktop/login1/session/auto"@,
        "org.freedesktop.login1.Session"@,
        "SetBrightness"@,
        "ssu"@,
        "backlight"@,
        device,
        text::dec(units),
    ]
}

/// The arguments with which `busctl` sets a backlight to so many units of its largest
/// number; `None` for a device with an unexpected name.
pub fn set_brightness_args(device: &str, units: u64, max: u64) -> (r: Option<Vec<String>>)
    requires
        max > 0,
    ensures
        match r {
            Some(args) => good_name(device@) && text::strs(args@) == set_args(
                device@,
                clamped(units as nat, max as nat),
            ),
            None => !good_name(device@),
        },
{
    if !is_good_name(device) {
        return None;
    }
    let target: u64 = if units < 1 {
        1
    } else if units > max {
        max
    } else {
        units
    };
    let mut args: Vec<String> = Vec::new();
    args.push("call".to_owned());
    args.push("org.freedesktop.login1".to_owned());
    args.push("/org/freedesktop/login1/session/auto".to_owned());
    args.push("org.freedesktop.login1.Session".to_owned());
    args.push("SetBrightness".to_owned());
    args.push("ssu".to_owned());
    args.push("backlight".to_owned());
    args.push(device.to_owned());
    args.push(text::decimal(target));
    assert(text::strs(args@) =~= set_args(device@, clamped(units as nat, max as nat)));
    Some(args)
}

// ---------------------------------------------------------------------------
// What is shown
// ---------------------------------------------------------------------------

/// What is shown of a brightness in percent.
pub open spec fn shows_brightness(config: BrightnessConfig, brightness: u32, m: StateModel) -> bool {
    m.text is Some && exists|t: Option<u32>|
        {
            &&& #[trigger] config::is_level(
                config.levels@,
                brightness as nat,
                None,
                (m.text->0, t),
            )
            &&& m.icon is None
            &&& m.tooltip == Some(text::dec(brightness as nat) + "%"@)
            &&& m.classes == modules::level_classes(t)
        }
}

/// What is shown without a backlight.
pub open spec fn shows_no_device() -> StateModel {
    StateModel { icon: None, text: None, tooltip: Some("No backlight"@), classes: seq!["no-device"@] }
}

/// The brightness after a step of scrolling.
pub open spec fn scrolled(current: Option<u32>, step: u32, direction: ScrollDirection) -> int {
    let amount = if step == 0 {
        10
    } else {
        step as int
    };
    let from = match current {
        Some(b) => b as int,
        None => 100,
    };
    match direction {
        ScrollDirection::Up => if from + amount < 100 {
            from + amount
        } else {
            100
        },
        ScrollDirection::Down => if from > amount {
            from - amount
        } else {
            0
        },
    }
}

/// The brightness of the screen.
#[derive(Debug, Clone)]
pub struct BrightnessModule {
    pub config: BrightnessConfig,
    /// The brightness in percent; `None` where there is no backlight.
    pub current: Option<u32>,
}

impl BrightnessModule {
    /// A brightness module with a configuration and a first reading.
    pub fn new(config: BrightnessConfig, initial: Option<u32>) -> (r: Self)
        ensures
            r.config == config,
            r.current == initial,
    {
        BrightnessModule { config, current: initial }
    }

    /// Takes note of a reading. Says whether it is another one than the last. Without a
    /// reading, the last one stays.
    pub fn record(&mut self, reading: Option<u32>) -> (changed: bool)
        ensures
            changed == (reading is Some && reading != old(self).current),
            final(self).current == (if reading is Some {
                reading
            } else {
                old(self).current
            }),
            final(self).config == old(self).config,
    {
        match reading {
            Some(b) => {
                let same: bool = match self.current {
                    Some(c) => c == b,
                    None => false,
                };
                self.current = Some(b);
                !same
            },
            None => false,
        }
    }

    /// What is shown of a brightness in percent.
    pub fn format_state_with_config(
        config: &BrightnessConfig,
        brightness: u32,
        _orientation: Orientation,
    ) -> (r: ModuleState)
        ensures
            shows_brightness(*config, brightness, r.model()),
    {
        let mut css_classes: Vec<String> = Vec::new();
        assert(text::strs(css_classes@) =~= Seq::empty());
        let (formatted, threshold) = resolve_level(&config.levels, brightness, None);
        push_level(&mut css_classes, threshold);
        let r: ModuleState = ModuleState {
            icon: None,
            text: Some(formatted),
            tooltip: Some(text::concat(text::decimal(brightness as u64).as_str(), "%")),
            css_classes,
        };
        assert(r.model().classes =~= modules::level_classes(threshold));
        assert(config::is_level(
            config.levels@,
            brightness as nat,
            None,
            (r.model().text->0, threshold),
        ));
        r
    }

    /// What is shown now.
    pub fn current_state(&self, orientation: Orientation) -> (r: ModuleState)
        ensures
            match self.current {
                Some(b) => shows_brightness(self.config, b, r.model()),
                None => r.model() == shows_no_device(),
            },
    {
        match self.current {
            Some(b) => BrightnessModule::format_state_with_config(&self.config, b, orientation),
            None => {
                let mut css_classes: Vec<String> = Vec::new();
                css_classes.push("no-device".to_owned());
                let r: ModuleState = ModuleState {
                    icon: None,
                    text: None,
                    tooltip: Some("No backlight".to_owned()),
                    css_classes,
                };
                assert(r.model().classes =~= seq!["no-device"@]);
                r
            },
        }
    }

    /// A step of scrolling: the brightness that is shown and set from now on. Without a
    /// backlight there is none. `has_device` says that there is one now.
    pub fn handle_scroll(&mut self, direction: ScrollDirection, has_device: bool) -> (r: Option<u32>)
        ensures
            final(self).current == r,
            match r {
                Some(b) => (old(self).current is Some || has_device) && b == scrolled(
                    old(self).current,
                    old(self).config.step,
                    direction,
                ),
                None => old(self).current is None && !has_device,
            },
            final(self).config == old(self).config,
    {
        if self.current.is_none() && !has_device {
            return None;
        }
        let step: u32 = if self.config.step == 0 {
            10
        } else {
            self.config.step
        };
        let cur: u32 = match self.current {
            Some(b) => b,
            None => 100,
        };
        let b: u32 = match direction {
            ScrollDirection::Up => {
                if cur < 100 && step < 100 - cur {
                    cur + step
                } else {
                    100
                }
            },
            ScrollDirection::Down => {
                if cur > step {
                    cur - step
                } else {
                    0
                }
            },
        };
        self.current = Some(b);
        Some(b)
    }
}

/// However far one scrolls, the brightness that is set lies between nothing and all.
pub proof fn law_scrolling_stays_in_range(current: Option<u32>, step: u32, direction: ScrollDirection)
    requires
        current matches Some(b) ==> b <= 100,
    ensures
        0 <= scrolled(current, step, direction) <= 100,
{
}

impl BarModule for BrightnessModule {
    open spec fn commands(&self) -> Commands {
        modules::commands_of(self.config.click)
    }

    open spec fn acts_by_itself(&self) -> bool {
        false
    }

    open spec fn title(&self) -> Seq<char> {
        "brightness"@
    }

    fn name(&self) -> (r: &'static str) {
        "brightness"
    }

    fn click_commands(&self) -> (r: (Option<&str>, Option<&str>, Option<&str>)) {
        self.config.click.commands()
    }

    fn has_default_action(&self) -> (r: bool) {
        false
    }
}

// ---------------------------------------------------------------------------
// Which backlight is used, and what is shown of it
// ---------------------------------------------------------------------------

proof fn lemma_first_usable(v: Seq<Backlight>, from: int, k: int)
    requires
        0 <= from <= k <= v.len(),
        forall|j: int| from <= j < k ==> !usable(#[trigger] v[j]),
        k < v.len() ==> usable(v[k]),
    ensures
        first_usable(v, from) == (if k < v.len() {
            Some(k)
        } else {
            None
        }),
    decreases k - from,
{
    if from < k {
        assert(!usable(v[from]));
        lemma_first_usable(v, from + 1, k);
    }
}

/// The first backlight with two numbers, of which the larger is not zero, is used; none is
/// where there is no such one.
pub proof fn law_first_usable_backlight_is_used(v: Seq<Backlight>, k: int)
    requires
        0 <= k <= v.len(),
        forall|j: int| 0 <= j < k ==> !usable(#[trigger] v[j]),
        k < v.len() ==> usable(v[k]),
    ensures
        k < v.len() ==> first_usable(v, 0) == Some(k),
        k == v.len() ==> first_usable(v, 0) is None,
{
    lemma_first_usable(v, 0, k);
}

/// A backlight can be used if and only if both its numbers can be read and the largest one is
/// above zero.
pub proof fn law_backlight_has_two_numbers(b: Backlight, cur: nat, max: nat)
    requires
        b.brightness matches Some(s) && text::trimmed(s@) == text::dec(cur),
        b.max_brightness matches Some(s) && text::trimmed(s@) == text::dec(max),
        cur <= u64::MAX,
        max <= u64::MAX,
    ensures
        usable(b) <==> max > 0,
        number_in(text::opt(b.brightness)) == Some(cur),
        number_in(text::opt(b.max_brightness)) == Some(max),
{
    text::law_number_is_read_back(cur, u64::MAX as nat);
    text::law_number_is_read_back(max, u64::MAX as nat);
}

/// What is missing cannot be used.
pub proof fn law_backlight_without_numbers_is_not_used(b: Backlight)
    ensures
        b.brightness is None || b.max_brightness is None ==> !usable(b),
{
}

/// The name of a backlight holds letters and digits of ASCII, and a few marks. No path can be
/// one.
pub proof fn law_names_hold_no_path(name: Seq<char>)
    ensures
        good_name(name) ==> name.len() > 0 && !name.contains('/') && !name.contains(' '),
        name.len() > 0 && (forall|i: int|
            0 <= i < name.len() ==> ('a' <= #[trigger] name[i] <= 'z' || 'A' <= name[i] <= 'Z' || '0' <= name[i] <= '9'
                || name[i] == '-' || name[i] == '_' || name[i] == ':' || name[i] == '.')) ==> good_name(name),
        (exists|i: int|
            0 <= i < name.len() && !('a' <= #[trigger] name[i] <= 'z' || 'A' <= name[i] <= 'Z' || '0' <= name[i] <= '9'
                || name[i] == '-' || name[i] == '_' || name[i] == ':' || name[i] == '.')) ==> !good_name(name),
{
}

/// A backlight is never set to nothing, nor to more than it has; what lies between is set as
/// it is.
pub proof fn law_backlight_is_never_off(units: nat, max: nat)
    requires
        max > 0,
    ensures
        1 <= clamped(units, max) <= max,
        1 <= units <= max ==> clamped(units, max) == units,
        units > max ==> clamped(units, max) == max,
        units == 0 ==> clamped(units, max) == 1,
{
}

/// A backlight is set through the session of the login service, by its name and its units.
pub proof fn law_backlight_is_set_through_the_session(device: Seq<char>, units: nat)
    ensures
        set_args(device, units) == seq![
            "call"@,
            "org.freedesktop.login1"@,
            "/org/freedesktop/login1/session/auto"@,
            "org.freedesktop.login1.Session"@,
            "SetBrightness"@,
            "ssu"@,
            "backlight"@,
            device,
            text::dec(units),
        ],
{
}

/// What is shown of a brightness is the text of its level, with the class of that level, and
/// the brightness in percent on hover.
pub proof fn law_brightness_is_shown_by_its_level(config: BrightnessConfig, brightness: u32, r: ModuleState) -> (t: Option<
    u32,
>)
    requires
        shows_brightness(config, brightness, r.model()),
    ensures
        r.text is Some,
        config::is_level(config.levels@, brightness as nat, None, (r.text->0@, t)),
        r.icon is None,
        r.tooltip is Some && r.tooltip->0@ == text::dec(brightness as nat) + "%"@,
        text::strs(r.css_classes@) == modules::level_classes(t),
{
    let m = r.model();
    choose|t: Option<u32>|
        {
            &&& #[trigger] config::is_level(config.levels@, brightness as nat, None, (m.text->0, t))
            &&& m.icon is None
            &&& m.tooltip == Some(text::dec(brightness as nat) + "%"@)
            &&& m.classes == modules::level_classes(t)
        }
}

/// Without a backlight there is no text, and the tooltip says so.
pub proof fn law_no_backlight_is_told(r: ModuleState)
    requires
        r.model() == shows_no_device(),
    ensures
        r.text is None,
        r.tooltip is Some && r.tooltip->0@ == "No backlight"@,
        r.css_classes@.len() == 1 && r.css_classes@[0]@ == "no-device"@,
{
    assert(r.model().classes.len() == r.css_classes@.len());
    assert(r.model().classes[0] == r.css_classes@[0]@);
}

/// Scrolling up makes the screen brighter by a step and down darker, as far as the range
/// goes. A step of zero stands for ten, and one scrolls from full where nothing is known.
pub proof fn law_scrolling_is_by_steps(b: u32, step: u32)
    requires
        b <= 100,
    ensures
        step > 0 && b + step <= 100 ==> scrolled(Some(b), step, ScrollDirection::Up) == b + step,
        step > 0 && b + step > 100 ==> scrolled(Some(b), step, ScrollDirection::Up) == 100,
        step > 0 && b >= step ==> scrolled(Some(b), step, ScrollDirection::Down) == b - step,
        step > 0 && b < step ==> scrolled(Some(b), step, ScrollDirection::Down) == 0,
        scrolled(Some(b), 0, ScrollDirection::Up) == scrolled(Some(b), 10, ScrollDirection::Up),
        scrolled(Some(b), 0, ScrollDirection::Down) == scrolled(Some(b), 10, ScrollDirection::Down),
        scrolled(None, step, ScrollDirection::Down) == scrolled(Some(100), step, ScrollDirection::Down),
        scrolled(None, step, ScrollDirection::Up) == 100,
{
}

/// The module goes by its name, runs the commands of its section, and nothing by itself.
pub proof fn law_brightness_runs_its_commands(m: BrightnessModule)
    ensures
        m.title() == "brightness"@,
        !m.acts_by_itself(),
        m.commands().0 == text::opt(m.config.click.on_click_left),
        m.commands().1 == text::opt(m.config.click.on_click_right),
        m.commands().2 == text::opt(m.config.click.on_click_middle),
{
}

} // verus!
