//! The configuration: its sections, their defaults and how a file is read.
use vstd::prelude::*;
use vstd::string::StringExecFns;

use crate::names;
use crate::names::NameMap;
use crate::paths;
use crate::text;
use crate::toml_value;
use crate::toml_value::{Toml, TomlModel};

verus! {

/// The file that is written on the first launch. It spells the defaults out.
pub const DEFAULT_CONFIG_TOML: &'static str = r#"# niri-bar configuration. Changes apply as soon as the file is saved.
position = "left"
size = 50
spacing = 0

[modules]
start = ["spacer", "taskbar"]
end = ["tray", "volume", "bluetooth", "network", "memory", "brightness", "battery", "clock"]

[taskbar]
enabled = true
icon_size = 32
only_current_workspace = true
show_tooltips = true

[tray]
icon_size = 22
spacing = 4

[volume]
step = 10
max_volume = 150

[brightness]
step = 10

[battery]
warning_threshold = 30
critical_threshold = 15

[clock]
format_vertical = "%H:%M\n%a\n%b\n%d/%m"
format_horizontal = "%H:%M %a %b %d/%m"

[spacer]
size = 5
"#;

/// Templates by name: levels or modes.
pub type Templates = NameMap<String>;

/// The texts of templates.
pub open spec fn views(m: Map<Seq<char>, String>) -> Map<Seq<char>, Seq<char>> {
    m.map_values(|s: String| s@)
}

/// The texts of optional templates.
pub open spec fn opt_views(m: Option<Templates>) -> Option<Map<Seq<char>, Seq<char>>> {
    match m {
        Some(t) => Some(views(t@)),
        None => None,
    }
}

/// Bar anchor edge. Vertical (`Left`/`Right`) bars stack modules top-down;
/// horizontal (`Top`/`Bottom`) bars lay them out left-to-right.
#[derive(Debug, Clone, Copy, PartialEq, Eq, Structural)]
pub enum BarPosition {
    Left,
    Right,
    Top,
    Bottom,
}

impl BarPosition {
    /// True for `Left`/`Right` (vertical layout).
    pub open spec fn vertical(self) -> bool {
        self is Left || self is Right
    }

    /// True for `Left`/`Right` (vertical layout).
    pub fn is_vertical(&self) -> (r: bool)
        ensures
            r == self.vertical(),
    {
        matches!(self, Self::Left | Self::Right)
    }
}

/// Optional shell commands run on mouse clicks.
#[derive(Debug, Clone)]
pub struct ClickActions {
    pub on_click_left: Option<String>,
    pub on_click_right: Option<String>,
    pub on_click_middle: Option<String>,
}

impl ClickActions {
    /// Commands for (left, right, middle) clicks.
    pub fn commands(&self) -> (r: (Option<&str>, Option<&str>, Option<&str>))
        ensures
            text::opt_str(r.0) == text::opt(self.on_click_left),
            text::opt_str(r.1) == text::opt(self.on_click_right),
            text::opt_str(r.2) == text::opt(self.on_click_middle),
    {
        (
            command_of(&self.on_click_left),
            command_of(&self.on_click_right),
            command_of(&self.on_click_middle),
        )
    }
}

fn command_of(c: &Option<String>) -> (r: Option<&str>)
    ensures
        text::opt_str(r) == text::opt(*c),
{
    match c {
        Some(s) => Some(s.as_str()),
        None => None,
    }
}

/// The taskbar: one button for each window.
#[derive(Debug, Clone, Copy)]
pub struct TaskbarConfig {
    pub enabled: bool,
    pub icon_size: i32,
    pub only_current_workspace: bool,
    pub show_tooltips: bool,
}

/// The system tray.
#[derive(Debug, Clone, Copy)]
pub struct TrayConfig {
    pub icon_size: i32,
    pub spacing: i32,
}

/// Which modules the bar shows, and where.
#[derive(Debug, Clone)]
pub struct ModulesConfig {
    pub order: Vec<String>,
    pub start: Option<Vec<String>>,
    pub end: Option<Vec<String>>,
}

/// The volume module.
#[derive(Debug, Clone)]
pub struct VolumeConfig {
    pub step: u32,
    pub max_volume: u32,
    pub levels: Templates,
    pub levels_headphones: Option<Templates>,
    pub levels_bluetooth: Option<Templates>,
    pub levels_hdmi: Option<Templates>,
    pub click: ClickActions,
}

/// The bluetooth module.
#[derive(Debug, Clone)]
pub struct BluetoothConfig {
    pub modes: Templates,
    pub click: ClickActions,
}

/// The network module.
#[derive(Debug, Clone)]
pub struct NetworkConfig {
    pub modes: Templates,
    pub click: ClickActions,
}

/// The memory module.
#[derive(Debug, Clone)]
pub struct MemoryConfig {
    pub format: String,
    pub click: ClickActions,
}

/// The brightness module.
#[derive(Debug, Clone)]
pub struct BrightnessConfig {
    pub step: u32,
    pub levels: Templates,
    pub click: ClickActions,
}

/// The battery module.
#[derive(Debug, Clone)]
pub struct BatteryConfig {
    pub warning_threshold: u8,
    pub critical_threshold: u8,
    pub levels: Templates,
    pub click: ClickActions,
}

/// The clock module.
#[derive(Debug, Clone)]
pub struct ClockConfig {
    pub format_vertical: String,
    pub format_horizontal: String,
    pub click: ClickActions,
}

/// The spacer between modules.
#[derive(Debug, Clone)]
pub struct SpacerConfig {
    pub size: i32,
    pub click: ClickActions,
}

/// The whole configuration.
#[derive(Debug, Clone)]
pub struct AppConfig {
    pub position: BarPosition,
    pub size: i32,
    pub spacing: i32,
    pub taskbar: TaskbarConfig,
    pub tray: TrayConfig,
    pub modules: ModulesConfig,
    pub volume: VolumeConfig,
    pub bluetooth: BluetoothConfig,
    pub network: NetworkConfig,
    pub memory: MemoryConfig,
    pub brightness: BrightnessConfig,
    pub battery: BatteryConfig,
    pub clock: ClockConfig,
    pub spacer: SpacerConfig,
}

// ---------------------------------------------------------------------------
// Templates
// ---------------------------------------------------------------------------

/// The threshold that the name of a level is: a number, which a percent sign may
/// follow.
pub open spec fn threshold(name: Seq<char>) -> Option<nat> {
    text::parsed(text::without_trailing(text::trimmed(name), '%'), 10, u32::MAX as nat)
}

/// Some level has a threshold.
pub open spec fn has_threshold(levels: Map<Seq<char>, String>) -> bool {
    exists|k: Seq<char>| #[trigger] levels.dom().contains(k) && threshold(k) is Some
}

/// Some level has a threshold of at most `value`.
pub open spec fn reaches(levels: Map<Seq<char>, String>, value: nat) -> bool {
    exists|k: Seq<char>| #[trigger]
        levels.dom().contains(k) && (threshold(k) matches Some(t) && t <= value)
}

/// `t` is the threshold for a value: the highest one that it reaches, or the lowest
/// of all where it reaches none.
pub open spec fn is_threshold_for(levels: Map<Seq<char>, String>, value: nat, t: nat) -> bool {
    if reaches(levels, value) {
        t <= value && forall|k: Seq<char>| #[trigger]
            levels.dom().contains(k) ==> (threshold(k) matches Some(u) ==> u <= value ==> u <= t)
    } else {
        forall|k: Seq<char>| #[trigger]
            levels.dom().contains(k) ==> (threshold(k) matches Some(u) ==> t <= u)
    }
}

/// A template with the value in place of `%v`.
pub open spec fn with_value(template: Seq<char>, value: nat) -> Seq<char> {
    text::replaced(template, "%v"@, text::dec(value))
}

/// `r` is the text for a value, and the threshold that it comes from. A special
/// state that has a template comes first; without any threshold the text is the
/// value in percent.
pub open spec fn is_level(
    levels: Map<Seq<char>, String>,
    value: nat,
    special: Option<Seq<char>>,
    r: (Seq<char>, Option<u32>),
) -> bool {
    if special is Some && levels.dom().contains(special->0) {
        r == (with_value(levels[special->0]@, value), None::<u32>)
    } else if !has_threshold(levels) {
        r == (text::dec(value) + "%"@, None::<u32>)
    } else {
        exists|k: Seq<char>|
            {
                &&& #[trigger] levels.dom().contains(k)
                &&& r.1 is Some
                &&& threshold(k) == Some(r.1->0 as nat)
                &&& is_threshold_for(levels, value, r.1->0 as nat)
                &&& r.0 == with_value(levels[k]@, value)
            }
    }
}

fn fill_value(template: &str, value: u32) -> (r: String)
    ensures
        r@ == with_value(template@, value as nat),
{
    text::replace(template, "%v", text::decimal(value as u64).as_str())
}

fn threshold_of(name: &str) -> (r: Option<u32>)
    ensures
        match r {
            Some(t) => threshold(name@) == Some(t as nat),
            None => threshold(name@) is None,
        },
{
    let digits: String = text::trim_end_char(text::trim(name).as_str(), '%');
    match text::parse_number(digits.as_str(), 10, u32::MAX as u64) {
        Some(n) => Some(n as u32),
        None => None,
    }
}

/// Picks the text for a numeric value (volume, brightness, battery), and tells the
/// threshold that it comes from.
pub fn resolve_level(levels: &Templates, value: u32, special_state: Option<&str>) -> (r: (
    String,
    Option<u32>,
))
    ensures
        is_level(levels@, value as nat, text::opt_str(special_state), (r.0@, r.1)),
{
    if let Some(state) = special_state {
        if let Some(template) = levels.get(state) {
            return (fill_value(template.as_str(), value), None);
        }
    }
    let n: usize = levels.len();
    let ghost e: Seq<(String, String)> = levels.entries();
    // The best entry among those that the value reaches, and the lowest of all.
    let mut best: Option<(usize, u32)> = None;
    let mut lowest: Option<(usize, u32)> = None;
    let mut i: usize = 0;
    while i < n
        invariant
            n == e.len(),
            e == levels.entries(),
            i <= n,
            match best {
                Some((b, t)) => b < i && threshold(e[b as int].0@) == Some(t as nat) && t <= value && (
                forall|j: int|
                    0 <= j < i ==> (threshold((#[trigger] e[j]).0@) matches Some(u) ==> u <= value ==> u <= t)),
                None => forall|j: int|
                    0 <= j < i ==> (threshold((#[trigger] e[j]).0@) matches Some(u) ==> u > value),
            },
            match lowest {
                Some((b, t)) => b < i && threshold(e[b as int].0@) == Some(t as nat) && (forall|j: int|
                    0 <= j < i ==> (threshold((#[trigger] e[j]).0@) matches Some(u) ==> t <= u)),
                None => forall|j: int| 0 <= j < i ==> threshold((#[trigger] e[j]).0@) is None,
            },
        decreases n - i,
    {
        if let Some(t) = threshold_of(levels.name_at(i).as_str()) {
            if t <= value {
                match best {
                    Some((_, high)) => {
                        if t >= high {
                            best = Some((i, t));
                        }
                    },
                    None => {
                        best = Some((i, t));
                    },
                }
            }
            match lowest {
                Some((_, low)) => {
                    if t < low {
                        lowest = Some((i, t));
                    }
                },
                None => {
                    lowest = Some((i, t));
                },
            }
        }
        i = i + 1;
    }
    proof {
        assert forall|k: Seq<char>| #[trigger] levels@.dom().contains(k) implies exists|j: int|
            0 <= j < e.len() && (#[trigger] e[j]).0@ == k by {
            names::lemma_named(e, k);
        }
    }
    let chosen: Option<(usize, u32)> = match best {
        Some(b) => Some(b),
        None => lowest,
    };
    match chosen {
        Some((b, t)) => {
            proof {
                names::lemma_entry(e, b as int);
                let k = e[b as int].0@;
                assert(levels@.dom().contains(k));
                assert(has_threshold(levels@));
                if best is Some {
                    assert(reaches(levels@, value as nat));
                } else {
                    assert(!reaches(levels@, value as nat)) by {
                        assert forall|k2: Seq<char>| #[trigger] levels@.dom().contains(k2) implies !(threshold(
                            k2,
                        ) matches Some(u) && u <= value) by {
                            names::lemma_named(e, k2);
                        }
                    }
                }
                assert(is_threshold_for(levels@, value as nat, t as nat)) by {
                    assert forall|k2: Seq<char>| #[trigger] levels@.dom().contains(k2) implies (threshold(
                        k2,
                    ) matches Some(u) ==> (if best is Some {
                        u <= value ==> u <= t
                    } else {
                        t <= u
                    })) by {
                        names::lemma_named(e, k2);
                    }
                }
            }
            (fill_value(levels.value_at(b).as_str(), value), Some(t))
        },
        None => {
            proof {
                assert(!has_threshold(levels@)) by {
                    assert forall|k2: Seq<char>| #[trigger] levels@.dom().contains(k2) implies threshold(
                        k2,
                    ) is None by {
                        names::lemma_named(e, k2);
                    }
                }
            }
            let mut s: String = text::decimal(value as u64);
            s.append("%");
            (s, None)
        },
    }
}

/// A value never gets the text of a threshold that is above it while it reaches
/// another one.
pub proof fn law_level_is_reached(
    levels: Map<Seq<char>, String>,
    value: nat,
    r: (Seq<char>, Option<u32>),
)
    requires
        is_level(levels, value, None, r),
        reaches(levels, value),
    ensures
        r.1 is Some && r.1->0 <= value,
{
}

/// Placeholders and what they stand for.
pub open spec fn pairs(p: Seq<(&str, &str)>) -> Seq<(Seq<char>, Seq<char>)> {
    Seq::new(p.len(), |i: int| (p[i].0@, p[i].1@))
}

/// A template with placeholders replaced, one after the other.
pub open spec fn filled(template: Seq<char>, p: Seq<(Seq<char>, Seq<char>)>) -> Seq<char>
    decreases p.len(),
{
    if p.len() == 0 {
        template
    } else {
        text::replaced(filled(template, p.drop_last()), p.last().0, p.last().1)
    }
}

/// The text for a named mode: its template filled in, or the name itself where the
/// mode is not known.
pub open spec fn mode_text(
    modes: Map<Seq<char>, String>,
    mode: Seq<char>,
    p: Seq<(Seq<char>, Seq<char>)>,
) -> Seq<char> {
    if modes.dom().contains(mode) {
        filled(modes[mode]@, p)
    } else {
        mode
    }
}

/// Picks the text for a named mode.
pub fn resolve_mode(modes: &Templates, mode: &str, placeholders: &[(&str, &str)]) -> (r: String)
    ensures
        r@ == mode_text(modes@, mode@, pairs(placeholders@)),
{
    match modes.get(mode) {
        Some(template) => {
            let ghost p: Seq<(Seq<char>, Seq<char>)> = pairs(placeholders@);
            let mut result: String = template.clone();
            let mut i: usize = 0;
            assert(p.take(0) =~= Seq::empty());
            while i < placeholders.len()
                invariant
                    i <= placeholders@.len(),
                    p == pairs(placeholders@),
                    result@ == filled(template@, p.take(i as int)),
                decreases placeholders@.len() - i,
            {
                assert(p.take(i + 1).drop_last() =~= p.take(i as int));
                assert(p.take(i + 1).last() == p[i as int]);
                let (k, v): (&str, &str) = placeholders[i];
                result = text::replace(result.as_str(), k, v);
                i = i + 1;
            }
            assert(p.take(p.len() as int) =~= p);
            result
        },
        None => mode.to_owned(),
    }
}

// ---------------------------------------------------------------------------
// Defaults
// ---------------------------------------------------------------------------

fn put(m: &mut Templates, name: &str, template: &str)
    ensures
        views(final(m)@) == views(old(m)@).insert(name@, template@),
{
    let ghost before: Map<Seq<char>, String> = m@;
    let v: String = template.to_owned();
    m.insert(name.to_owned(), v);
    assert(views(m@) =~= views(before).insert(name@, template@));
}

fn no_templates() -> (m: Templates)
    ensures
        views(m@) == Map::<Seq<char>, Seq<char>>::empty(),
{
    let m: Templates = NameMap::new();
    assert(views(m@) =~= Map::<Seq<char>, Seq<char>>::empty());
    m
}

/// The default for switches that are on.
pub fn default_true() -> (r: bool)
    ensures
        r,
{
    true
}

/// The default size of the taskbar's icons.
pub fn default_icon_size() -> (r: i32)
    ensures
        r == 32,
{
    32
}

/// The default size of the tray's icons.
pub fn default_tray_icon_size() -> (r: i32)
    ensures
        r == 22,
{
    22
}

/// The default space between the tray's icons.
pub fn default_tray_spacing() -> (r: i32)
    ensures
        r == 4,
{
    4
}

/// The default thickness of the bar.
pub fn default_size() -> (r: i32)
    ensures
        r == 50,
{
    50
}

/// The default step of volume and brightness.
pub fn default_step() -> (r: u32)
    ensures
        r == 10,
{
    10
}

/// The default highest volume.
pub fn default_max_volume() -> (r: u32)
    ensures
        r == 150,
{
    150
}

/// The default text of the memory module.
pub fn default_memory_format() -> (r: String)
    ensures
        r@ == "\u{f035b}\n%uG"@,
{
    "\u{f035b}\n%uG".to_owned()
}

/// The default charge below which the battery warns.
pub fn default_warning_threshold() -> (r: u8)
    ensures
        r == 30,
{
    30
}

/// The default charge below which the battery is critical.
pub fn default_critical_threshold() -> (r: u8)
    ensures
        r == 15,
{
    15
}

/// The default text of the clock on a vertical bar.
pub fn default_clock_vertical() -> (r: String)
    ensures
        r@ == "%H:%M\n%a\n%b\n%d/%m"@,
{
    "%H:%M\n%a\n%b\n%d/%m".to_owned()
}

/// The default text of the clock on a horizontal bar.
pub fn default_clock_horizontal() -> (r: String)
    ensures
        r@ == "%H:%M %a %b %d/%m"@,
{
    "%H:%M %a %b %d/%m".to_owned()
}

/// The default size of a spacer.
pub fn default_spacer_size() -> (r: i32)
    ensures
        r == 5,
{
    5
}

/// The modules that the bar shows unless configured otherwise.
pub open spec fn module_order() -> Seq<Seq<char>> {
    seq![
        "tray"@,
        "volume"@,
        "bluetooth"@,
        "network"@,
        "memory"@,
        "brightness"@,
        "battery"@,
        "clock"@,
    ]
}

/// The modules that the bar shows unless configured otherwise.
pub fn default_module_order() -> (r: Vec<String>)
    ensures
        text::strs(r@) == module_order(),
{
    let r: Vec<String> = vec![
        "tray".to_owned(),
        "volume".to_owned(),
        "bluetooth".to_owned(),
        "network".to_owned(),
        "memory".to_owned(),
        "brightness".to_owned(),
        "battery".to_owned(),
        "clock".to_owned(),
    ];
    assert(text::strs(r@) =~= module_order());
    r
}

/// The default levels of the volume.
pub open spec fn volume_levels() -> Map<Seq<char>, Seq<char>> {
    Map::empty().insert("0"@, "\u{f026}\n%v%"@).insert("1"@, "\u{f027}\n%v%"@).insert(
        "100"@,
        "\u{f028}\n%v%"@,
    ).insert("muted"@, "\u{f026}\nM"@)
}

/// The default levels of the volume.
pub fn default_volume_levels() -> (m: Templates)
    ensures
        views(m@) == volume_levels(),
{
    let mut m: Templates = no_templates();
    put(&mut m, "0", "\u{f026}\n%v%");
    put(&mut m, "1", "\u{f027}\n%v%");
    put(&mut m, "100", "\u{f028}\n%v%");
    put(&mut m, "muted", "\u{f026}\nM");
    m
}

/// The default levels of the brightness.
pub open spec fn brightness_levels() -> Map<Seq<char>, Seq<char>> {
    Map::empty().insert("0"@, "\u{f00de}\n%v%"@).insert("33"@, "\u{f00df}\n%v%"@).insert(
        "66"@,
        "\u{f00e0}\n%v%"@,
    ).insert("100"@, "\u{f00e1}\n%v%"@)
}

/// The default levels of the brightness.
pub fn default_brightness_levels() -> (m: Templates)
    ensures
        views(m@) == brightness_levels(),
{
    let mut m: Templates = no_templates();
    put(&mut m, "0", "\u{f00de}\n%v%");
    put(&mut m, "33", "\u{f00df}\n%v%");
    put(&mut m, "66", "\u{f00e0}\n%v%");
    put(&mut m, "100", "\u{f00e1}\n%v%");
    m
}

/// The default levels of the battery.
pub open spec fn battery_levels() -> Map<Seq<char>, Seq<char>> {
    Map::empty().insert("0"@, "\u{f244}\n%v%"@).insert("33"@, "\u{f243}\n%v%"@).insert(
        "66"@,
        "\u{f241}\n%v%"@,
    ).insert("100"@, "\u{f240}\n%v%"@).insert("charging"@, "\u{f0e7}\n%v%"@).insert(
        "full"@,
        "\u{f240}\nFull"@,
    )
}

/// The default levels of the battery.
pub fn default_battery_levels() -> (m: Templates)
    ensures
        views(m@) == battery_levels(),
{
    let mut m: Templates = no_templates();
    put(&mut m, "0", "\u{f244}\n%v%");
    put(&mut m, "33", "\u{f243}\n%v%");
    put(&mut m, "66", "\u{f241}\n%v%");
    put(&mut m, "100", "\u{f240}\n%v%");
    put(&mut m, "charging", "\u{f0e7}\n%v%");
    put(&mut m, "full", "\u{f240}\nFull");
    m
}

/// The default modes of the network.
pub open spec fn network_modes() -> Map<Seq<char>, Seq<char>> {
    Map::empty().insert("wifi"@, "\u{f0928}\nWiFi"@).insert("lan"@, "\u{f0200}\nLAN"@).insert(
        "disconnected"@,
        "\u{f092e}\nOff"@,
    )
}

/// The default modes of the network.
pub fn default_network_modes() -> (m: Templates)
    ensures
        views(m@) == network_modes(),
{
    let mut m: Templates = no_templates();
    put(&mut m, "wifi", "\u{f0928}\nWiFi");
    put(&mut m, "lan", "\u{f0200}\nLAN");
    put(&mut m, "disconnected", "\u{f092e}\nOff");
    m
}

/// The default modes of bluetooth.
pub open spec fn bluetooth_modes() -> Map<Seq<char>, Seq<char>> {
    Map::empty().insert("connected"@, "\u{f00b1}\nOn"@).insert("on"@, "\u{f293}\nOn"@).insert(
        "off"@,
        "\u{f00b2}\nOff"@,
    ).insert("loading"@, "\u{f00af}\n..."@)
}

/// The default modes of bluetooth.
pub fn default_bluetooth_modes() -> (m: Templates)
    ensures
        views(m@) == bluetooth_modes(),
{
    let mut m: Templates = no_templates();
    put(&mut m, "connected", "\u{f00b1}\nOn");
    put(&mut m, "on", "\u{f293}\nOn");
    put(&mut m, "off", "\u{f00b2}\nOff");
    put(&mut m, "loading", "\u{f00af}\n...");
    m
}

// ---------------------------------------------------------------------------
// Reading fields
// ---------------------------------------------------------------------------

/// The text that a value is. Dates and times count by the way they are written.
pub open spec fn text_value(m: TomlModel) -> Option<Seq<char>> {
    match m {
        TomlModel::Text(s) => Some(s),
        TomlModel::Datetime(s) => Some(s),
        _ => None,
    }
}

/// A switch: true or false, or missing.
pub open spec fn flag_ok(f: Option<TomlModel>) -> bool {
    f is None || f->0 is Boolean
}

/// What a switch says; `d` where it is missing.
pub open spec fn flag_or(f: Option<TomlModel>, d: bool) -> bool {
    match f {
        Some(TomlModel::Boolean(b)) => b,
        _ => d,
    }
}

/// A whole number from `lo` to `hi`, or missing.
pub open spec fn number_ok(f: Option<TomlModel>, lo: int, hi: int) -> bool {
    match f {
        None => true,
        Some(TomlModel::Integer(n)) => lo <= n <= hi,
        _ => false,
    }
}

/// What a number says; `d` where it is missing.
pub open spec fn number_or(f: Option<TomlModel>, d: int) -> int {
    match f {
        Some(TomlModel::Integer(n)) => n as int,
        _ => d,
    }
}

/// A text, or missing.
pub open spec fn text_ok(f: Option<TomlModel>) -> bool {
    f is None || text_value(f->0) is Some
}

/// What a text says; `d` where it is missing.
pub open spec fn text_or(f: Option<TomlModel>, d: Seq<char>) -> Seq<char> {
    match f {
        Some(m) => text_value(m)->0,
        None => d,
    }
}

/// What an optional text says.
pub open spec fn opt_text(f: Option<TomlModel>) -> Option<Seq<char>> {
    match f {
        Some(m) => text_value(m),
        None => None,
    }
}

/// A list of texts, or missing.
pub open spec fn list_ok(f: Option<TomlModel>) -> bool {
    match f {
        None => true,
        Some(TomlModel::Array(a)) => forall|i: int| 0 <= i < a.len() ==> text_value(#[trigger] a[i]) is Some,
        _ => false,
    }
}

/// The texts of a list.
pub open spec fn list_of(a: Seq<TomlModel>) -> Seq<Seq<char>> {
    Seq::new(a.len(), |i: int| text_value(a[i])->0)
}

/// What an optional list says.
pub open spec fn opt_list(f: Option<TomlModel>) -> Option<Seq<Seq<char>>> {
    match f {
        Some(TomlModel::Array(a)) => Some(list_of(a)),
        _ => None,
    }
}

/// The templates that the entries of a table are.
pub open spec fn templates_from(o: Seq<(Seq<char>, TomlModel)>) -> Option<Map<Seq<char>, Seq<char>>>
    decreases o.len(),
{
    if o.len() == 0 {
        Some(Map::empty())
    } else {
        match (templates_from(o.drop_last()), text_value(o.last().1)) {
            (Some(m), Some(s)) => Some(m.insert(o.last().0, s)),
            _ => None,
        }
    }
}

/// The templates that a value is.
pub open spec fn templates_value(m: TomlModel) -> Option<Map<Seq<char>, Seq<char>>> {
    match m {
        TomlModel::Table(o) => templates_from(o),
        _ => None,
    }
}

/// Templates, or missing.
pub open spec fn templates_ok(f: Option<TomlModel>) -> bool {
    f is None || templates_value(f->0) is Some
}

/// What templates say; `d` where they are missing.
pub open spec fn templates_or(f: Option<TomlModel>, d: Map<Seq<char>, Seq<char>>) -> Map<
    Seq<char>,
    Seq<char>,
> {
    match f {
        Some(m) => templates_value(m)->0,
        None => d,
    }
}

/// What optional templates say.
pub open spec fn opt_templates(f: Option<TomlModel>) -> Option<Map<Seq<char>, Seq<char>>> {
    match f {
        Some(m) => templates_value(m),
        None => None,
    }
}

/// What an optional value says.
pub open spec fn opt_model(t: Option<&Toml>) -> Option<TomlModel> {
    match t {
        Some(v) => Some(v.model()),
        None => None,
    }
}

fn read_flag(f: Option<&Toml>, d: bool) -> (r: Option<bool>)
    ensures
        match r {
            Some(b) => flag_ok(opt_model(f)) && b == flag_or(opt_model(f), d),
            None => !flag_ok(opt_model(f)),
        },
{
    match f {
        None => Some(d),
        Some(Toml::Boolean(b)) => Some(*b),
        _ => None,
    }
}

fn read_number(f: Option<&Toml>, lo: i64, hi: i64, d: i64) -> (r: Option<i64>)
    requires
        lo <= d <= hi,
    ensures
        match r {
            Some(n) => number_ok(opt_model(f), lo as int, hi as int) && n == number_or(
                opt_model(f),
                d as int,
            ) && lo <= n <= hi,
            None => !number_ok(opt_model(f), lo as int, hi as int),
        },
{
    match f {
        None => Some(d),
        Some(Toml::Integer(n)) => {
            if lo <= *n && *n <= hi {
                Some(*n)
            } else {
                None
            }
        },
        _ => None,
    }
}

fn read_text(t: &Toml) -> (r: Option<String>)
    ensures
        text::opt(r) == text_value(t.model()),
{
    match t {
        Toml::Text(s) => Some(s.clone()),
        Toml::Datetime(s) => Some(s.clone()),
        _ => None,
    }
}

fn read_text_or(f: Option<&Toml>, d: String) -> (r: Option<String>)
    ensures
        match r {
            Some(s) => text_ok(opt_model(f)) && s@ == text_or(opt_model(f), d@),
            None => !text_ok(opt_model(f)),
        },
{
    match f {
        None => Some(d),
        Some(t) => read_text(t),
    }
}

fn read_opt_text(f: Option<&Toml>) -> (r: Option<Option<String>>)
    ensures
        match r {
            Some(s) => text_ok(opt_model(f)) && text::opt(s) == opt_text(opt_model(f)),
            None => !text_ok(opt_model(f)),
        },
{
    match f {
        None => Some(None),
        Some(t) => match read_text(t) {
            Some(s) => Some(Some(s)),
            None => None,
        },
    }
}

fn read_opt_list(f: Option<&Toml>) -> (r: Option<Option<Vec<String>>>)
    ensures
        match r {
            Some(Some(v)) => list_ok(opt_model(f)) && opt_list(opt_model(f)) == Some(text::strs(v@))
                && f is Some,
            Some(None) => f is None,
            None => !list_ok(opt_model(f)),
        },
{
    match f {
        None => Some(None),
        Some(Toml::Array(a)) => {
            proof {
                toml_value::lemma_model(*f->0);
            }
            let ghost ms: Seq<TomlModel> = toml_value::array_model(a@);
            let mut v: Vec<String> = Vec::new();
            let mut i: usize = 0;
            while i < a.len()
                invariant
                    i <= a@.len(),
                    f is Some,
                    ms == toml_value::array_model(a@),
                    (f->0).model() == TomlModel::Array(ms),
                    v@.len() == i,
                    forall|k: int| 0 <= k < i ==> text_value(#[trigger] ms[k]) == Some(v@[k]@),
                decreases a@.len() - i,
            {
                assert(ms[i as int] == a@[i as int].model());
                match read_text(&a[i]) {
                    Some(s) => v.push(s),
                    None => return None,
                }
                i = i + 1;
            }
            assert(list_of(ms) =~= text::strs(v@));
            Some(Some(v))
        },
        _ => None,
    }
}

/// An entry that is no text spoils the whole table of templates.
proof fn lemma_templates_bad(o: Seq<(Seq<char>, TomlModel)>, k: int)
    requires
        0 <= k <= o.len(),
        templates_from(o.take(k)) is None,
    ensures
        templates_from(o) is None,
    decreases o.len() - k,
{
    if k < o.len() {
        assert(o.take(k + 1).drop_last() =~= o.take(k));
        lemma_templates_bad(o, k + 1);
    } else {
        assert(o.take(k) =~= o);
    }
}

fn read_templates(t: &Toml) -> (r: Option<Templates>)
    ensures
        opt_views(r) == templates_value(t.model()),
{
    proof {
        toml_value::lemma_model(*t);
    }
    match t {
        Toml::Table(o) => {
            let ghost ms: Seq<(Seq<char>, TomlModel)> = toml_value::table_model(o@);
            let mut m: Templates = no_templates();
            let mut i: usize = 0;
            assert(ms.take(0) =~= Seq::empty());
            while i < o.len()
                invariant
                    i <= o@.len(),
                    ms == toml_value::table_model(o@),
                    t.model() == TomlModel::Table(ms),
                    templates_from(ms.take(i as int)) == Some(views(m@)),
                decreases o@.len() - i,
            {
                assert(ms[i as int] == (o@[i as int].0@, o@[i as int].1.model()));
                assert(ms.take(i + 1).drop_last() =~= ms.take(i as int));
                assert(ms.take(i + 1).last() == ms[i as int]);
                match read_text(&o[i].1) {
                    Some(s) => {
                        put(&mut m, o[i].0.as_str(), s.as_str());
                    },
                    None => {
                        proof {
                            lemma_templates_bad(ms, i + 1);
                        }
                        return None;
                    },
                }
                i = i + 1;
            }
            assert(ms.take(ms.len() as int) =~= ms);
            Some(m)
        },
        _ => None,
    }
}

fn read_templates_or(f: Option<&Toml>, d: Templates) -> (r: Option<Templates>)
    ensures
        match r {
            Some(m) => templates_ok(opt_model(f)) && views(m@) == templates_or(opt_model(f), views(d@)),
            None => !templates_ok(opt_model(f)),
        },
{
    match f {
        None => Some(d),
        Some(t) => read_templates(t),
    }
}

fn read_opt_templates(f: Option<&Toml>) -> (r: Option<Option<Templates>>)
    ensures
        match r {
            Some(m) => templates_ok(opt_model(f)) && opt_views(m) == opt_templates(opt_model(f)),
            None => !templates_ok(opt_model(f)),
        },
{
    match f {
        None => Some(None),
        Some(t) => match read_templates(t) {
            Some(m) => Some(Some(m)),
            None => None,
        },
    }
}

// ---------------------------------------------------------------------------
// Sections
// ---------------------------------------------------------------------------

/// A section of the configuration file. A name that is to be skipped counts as
/// missing.
pub trait Section: Sized {
    /// The value can be read as this section.
    spec fn readable(m: TomlModel, skip: Option<Seq<char>>) -> bool;

    /// This is what the value reads as.
    spec fn reads(self, m: TomlModel, skip: Option<Seq<char>>) -> bool;

    /// This is the section with all its defaults.
    spec fn is_default(self) -> bool;

    /// Reads the section.
    fn read(t: &Toml, skip: Option<&str>) -> (r: Option<Self>)
        ensures
            match r {
                Some(c) => Self::readable(t.model(), text::opt_str(skip)) && c.reads(
                    t.model(),
                    text::opt_str(skip),
                ),
                None => !Self::readable(t.model(), text::opt_str(skip)),
            },
    ;

    /// The section with all its defaults.
    fn defaults() -> (r: Self)
        ensures
            r.is_default(),
    ;
}

/// A field of a section that is a table.
pub open spec fn named(m: TomlModel, name: Seq<char>, skip: Option<Seq<char>>) -> Option<TomlModel> {
    toml_value::field(m, name, 0, skip)
}

/// A value that a section of `n` fields can be read from: a table, or an array of
/// at most `n` values.
pub open spec fn is_structure(m: TomlModel, n: int) -> bool {
    match m {
        TomlModel::Table(_) => true,
        TomlModel::Array(a) => a.len() <= n,
        _ => false,
    }
}

fn is_struct(t: &Toml, n: usize) -> (r: bool)
    ensures
        r == is_structure(t.model(), n as int),
{
    proof {
        toml_value::lemma_model(*t);
    }
    match t {
        Toml::Table(_) => true,
        Toml::Array(a) => a.len() <= n,
        _ => false,
    }
}

fn is_table(t: &Toml) -> (r: bool)
    ensures
        r == (t.model() is Table),
{
    matches!(t, Toml::Table(_))
}

impl ClickActions {
    /// The click commands of a section can be read.
    pub open spec fn readable(m: TomlModel, skip: Option<Seq<char>>) -> bool {
        &&& text_ok(named(m, "on_click_left"@, skip))
        &&& text_ok(named(m, "on_click_right"@, skip))
        &&& text_ok(named(m, "on_click_middle"@, skip))
    }

    /// These are the click commands of a section.
    pub open spec fn reads(self, m: TomlModel, skip: Option<Seq<char>>) -> bool {
        &&& text::opt(self.on_click_left) == opt_text(named(m, "on_click_left"@, skip))
        &&& text::opt(self.on_click_right) == opt_text(named(m, "on_click_right"@, skip))
        &&& text::opt(self.on_click_middle) == opt_text(named(m, "on_click_middle"@, skip))
    }

    /// There is no command.
    pub open spec fn is_default(self) -> bool {
        self.on_click_left is None && self.on_click_right is None && self.on_click_middle is None
    }

    fn read(t: &Toml, skip: Option<&str>) -> (r: Option<Self>)
        requires
            t.model() is Table,
        ensures
            match r {
                Some(c) => Self::readable(t.model(), text::opt_str(skip)) && c.reads(
                    t.model(),
                    text::opt_str(skip),
                ),
                None => !Self::readable(t.model(), text::opt_str(skip)),
            },
    {
        match (
            read_opt_text(t.get("on_click_left", 0, skip)),
            read_opt_text(t.get("on_click_right", 0, skip)),
            read_opt_text(t.get("on_click_middle", 0, skip)),
        ) {
            (Some(on_click_left), Some(on_click_right), Some(on_click_middle)) => Some(
                ClickActions { on_click_left, on_click_right, on_click_middle },
            ),
            _ => None,
        }
    }
}

impl Default for ClickActions {
    fn default() -> (r: Self)
        ensures
            r.is_default(),
    {
        ClickActions { on_click_left: None, on_click_right: None, on_click_middle: None }
    }
}

/// The position with a name.
pub open spec fn position_named(name: Seq<char>) -> Option<BarPosition> {
    if name == "left"@ {
        Some(BarPosition::Left)
    } else if name == "right"@ {
        Some(BarPosition::Right)
    } else if name == "top"@ {
        Some(BarPosition::Top)
    } else if name == "bottom"@ {
        Some(BarPosition::Bottom)
    } else {
        None
    }
}

fn find_position(name: &str) -> (r: Option<BarPosition>)
    ensures
        r == position_named(name@),
{
    if text::same(name, "left") {
        Some(BarPosition::Left)
    } else if text::same(name, "right") {
        Some(BarPosition::Right)
    } else if text::same(name, "top") {
        Some(BarPosition::Top)
    } else if text::same(name, "bottom") {
        Some(BarPosition::Bottom)
    } else {
        None
    }
}

/// The entries of a table but for the one to skip.
pub open spec fn without_name(
    o: Seq<(Seq<char>, TomlModel)>,
    skip: Option<Seq<char>>,
) -> Seq<(Seq<char>, TomlModel)> {
    o.filter(|e: (Seq<char>, TomlModel)| skip != Some(e.0))
}

/// An array or a table with nothing in it.
pub open spec fn is_hollow(m: TomlModel) -> bool {
    match m {
        TomlModel::Array(a) => a.len() == 0,
        TomlModel::Table(o) => o.len() == 0,
        _ => false,
    }
}

/// The position that a value is: its name, or a table whose only entry has that
/// name and nothing in it.
pub open spec fn position_value(m: TomlModel, skip: Option<Seq<char>>) -> Option<BarPosition> {
    match m {
        TomlModel::Text(s) => position_named(s),
        TomlModel::Table(o) => {
            let left = without_name(o, skip);
            if left.len() == 1 && is_hollow(left[0].1) {
                position_named(left[0].0)
            } else {
                None
            }
        },
        _ => None,
    }
}

impl Section for BarPosition {
    open spec fn readable(m: TomlModel, skip: Option<Seq<char>>) -> bool {
        position_value(m, skip) is Some
    }

    open spec fn reads(self, m: TomlModel, skip: Option<Seq<char>>) -> bool {
        position_value(m, skip) == Some(self)
    }

    open spec fn is_default(self) -> bool {
        self is Left
    }

    fn read(t: &Toml, skip: Option<&str>) -> (r: Option<Self>) {
        proof {
            toml_value::lemma_model(*t);
        }
        match t {
            Toml::Text(s) => find_position(s.as_str()),
            Toml::Table(o) => {
                let ghost ms: Seq<(Seq<char>, TomlModel)> = toml_value::table_model(o@);
                let ghost keep = |e: (Seq<char>, TomlModel)| text::opt_str(skip) != Some(e.0);
                let mut found: Option<usize> = None;
                let mut i: usize = 0;
                assert(ms.take(0) =~= Seq::empty());
                assert(ms.take(0).filter(keep) =~= Seq::empty()) by {
                    reveal(Seq::filter);
                }
                while i < o.len()
                    invariant
                        i <= o@.len(),
                        ms == toml_value::table_model(o@),
                        t.model() == TomlModel::Table(ms),
                        keep == (|e: (Seq<char>, TomlModel)| text::opt_str(skip) != Some(e.0)),
                        match found {
                            Some(k) => k < i && ms.take(i as int).filter(keep) =~= seq![ms[k as int]],
                            None => ms.take(i as int).filter(keep).len() == 0,
                        },
                    decreases o@.len() - i,
                {
                    proof {
                        reveal(Seq::filter);
                        assert(ms[i as int] == (o@[i as int].0@, o@[i as int].1.model()));
                        assert(ms.take(i + 1).drop_last() =~= ms.take(i as int));
                        assert(ms.take(i + 1).last() == ms[i as int]);
                    }
                    let skipped: bool = match skip {
                        Some(k) => text::same(k, o[i].0.as_str()),
                        None => false,
                    };
                    if !skipped {
                        if found.is_some() {
                            proof {
                                assert(ms.take(i + 1).filter(keep).len() == 2);
                                lemma_filter_grows(ms, keep, i + 1);
                            }
                            return None;
                        }
                        found = Some(i);
                    }
                    i = i + 1;
                }
                assert(ms.take(ms.len() as int) =~= ms);
                match found {
                    Some(k) => {
                        assert(ms[k as int] == (o@[k as int].0@, o@[k as int].1.model()));
                        proof {
                            toml_value::lemma_model(o@[k as int].1);
                        }
                        let hollow: bool = match &o[k].1 {
                            Toml::Array(a) => a.len() == 0,
                            Toml::Table(p) => p.len() == 0,
                            _ => false,
                        };
                        if hollow {
                            find_position(o[k].0.as_str())
                        } else {
                            None
                        }
                    },
                    None => None,
                }
            },
            _ => None,
        }
    }

    fn defaults() -> (r: Self) {
        BarPosition::default()
    }
}

/// A filter keeps at least what it keeps of the front.
proof fn lemma_filter_grows<A>(s: Seq<A>, keep: spec_fn(A) -> bool, k: int)
    requires
        0 <= k <= s.len(),
    ensures
        s.filter(keep).len() >= s.take(k).filter(keep).len(),
{
    Seq::filter_distributes_over_add(s.take(k), s.skip(k), keep);
    assert(s =~= s.take(k) + s.skip(k));
}

impl Default for BarPosition {
    fn default() -> (r: Self)
        ensures
            r is Left,
    {
        BarPosition::Left
    }
}

impl Section for TaskbarConfig {
    open spec fn readable(m: TomlModel, skip: Option<Seq<char>>) -> bool {
        &&& is_structure(m, 4)
        &&& flag_ok(toml_value::field(m, "enabled"@, 0, skip))
        &&& number_ok(toml_value::field(m, "icon_size"@, 1, skip), i32::MIN as int, i32::MAX as int)
        &&& flag_ok(toml_value::field(m, "only_current_workspace"@, 2, skip))
        &&& flag_ok(toml_value::field(m, "show_tooltips"@, 3, skip))
    }

    open spec fn reads(self, m: TomlModel, skip: Option<Seq<char>>) -> bool {
        &&& self.enabled == flag_or(toml_value::field(m, "enabled"@, 0, skip), true)
        &&& self.icon_size == number_or(toml_value::field(m, "icon_size"@, 1, skip), 32)
        &&& self.only_current_workspace == flag_or(
            toml_value::field(m, "only_current_workspace"@, 2, skip),
            true,
        )
        &&& self.show_tooltips == flag_or(toml_value::field(m, "show_tooltips"@, 3, skip), true)
    }

    open spec fn is_default(self) -> bool {
        self.enabled && self.icon_size == 32 && self.only_current_workspace && self.show_tooltips
    }

    fn read(t: &Toml, skip: Option<&str>) -> (r: Option<Self>) {
        if !is_struct(t, 4) {
            return None;
        }
        match (
            read_flag(t.get("enabled", 0, skip), default_true()),
            read_number(
                t.get("icon_size", 1, skip),
                i32::MIN as i64,
                i32::MAX as i64,
                default_icon_size() as i64,
            ),
            read_flag(t.get("only_current_workspace", 2, skip), default_true()),
            read_flag(t.get("show_tooltips", 3, skip), default_true()),
        ) {
            (Some(enabled), Some(icon_size), Some(only_current_workspace), Some(show_tooltips)) => Some(
                TaskbarConfig {
                    enabled,
                    icon_size: icon_size as i32,
                    only_current_workspace,
                    show_tooltips,
                },
            ),
            _ => None,
        }
    }

    fn defaults() -> (r: Self) {
        TaskbarConfig::default()
    }
}

impl Default for TaskbarConfig {
    fn default() -> (r: Self)
        ensures
            r.is_default(),
    {
        TaskbarConfig {
            enabled: default_true(),
            icon_size: default_icon_size(),
            only_current_workspace: default_true(),
            show_tooltips: default_true(),
        }
    }
}

impl Section for TrayConfig {
    open spec fn readable(m: TomlModel, skip: Option<Seq<char>>) -> bool {
        &&& is_structure(m, 2)
        &&& number_ok(toml_value::field(m, "icon_size"@, 0, skip), i32::MIN as int, i32::MAX as int)
        &&& number_ok(toml_value::field(m, "spacing"@, 1, skip), i32::MIN as int, i32::MAX as int)
    }

    open spec fn reads(self, m: TomlModel, skip: Option<Seq<char>>) -> bool {
        &&& self.icon_size == number_or(toml_value::field(m, "icon_size"@, 0, skip), 22)
        &&& self.spacing == number_or(toml_value::field(m, "spacing"@, 1, skip), 4)
    }

    open spec fn is_default(self) -> bool {
        self.icon_size == 22 && self.spacing == 4
    }

    fn read(t: &Toml, skip: Option<&str>) -> (r: Option<Self>) {
        if !is_struct(t, 2) {
            return None;
        }
        match (
            read_number(
                t.get("icon_size", 0, skip),
                i32::MIN as i64,
                i32::MAX as i64,
                default_tray_icon_size() as i64,
            ),
            read_number(
                t.get("spacing", 1, skip),
                i32::MIN as i64,
                i32::MAX as i64,
                default_tray_spacing() as i64,
            ),
        ) {
            (Some(icon_size), Some(spacing)) => Some(
                TrayConfig { icon_size: icon_size as i32, spacing: spacing as i32 },
            ),
            _ => None,
        }
    }

    fn defaults() -> (r: Self) {
        TrayConfig::default()
    }
}

impl Default for TrayConfig {
    fn default() -> (r: Self)
        ensures
            r.is_default(),
    {
        TrayConfig { icon_size: default_tray_icon_size(), spacing: default_tray_spacing() }
    }
}

/// What an optional list of strings says.
pub open spec fn opt_strs(v: Option<Vec<String>>) -> Option<Seq<Seq<char>>> {
    match v {
        Some(l) => Some(text::strs(l@)),
        None => None,
    }
}

/// The modules at the start of the bar unless configured otherwise.
pub open spec fn default_start() -> Seq<Seq<char>> {
    seq!["spacer"@, "taskbar"@]
}

impl ModulesConfig {
    /// The modules at the start of the bar.
    pub fn start_modules(&self) -> (r: Vec<String>)
        ensures
            text::strs(r@) == (match self.start {
                Some(v) => text::strs(v@),
                None => default_start(),
            }),
    {
        match &self.start {
            Some(v) => text::copy_list(v),
            None => {
                let r: Vec<String> = vec!["spacer".to_owned(), "taskbar".to_owned()];
                assert(text::strs(r@) =~= default_start());
                r
            },
        }
    }

    /// The modules at the end of the bar.
    pub fn end_modules(&self) -> (r: Vec<String>)
        ensures
            text::strs(r@) == (match self.end {
                Some(v) => text::strs(v@),
                None => text::strs(self.order@),
            }),
    {
        match &self.end {
            Some(v) => text::copy_list(v),
            None => text::copy_list(&self.order),
        }
    }
}

impl Section for ModulesConfig {
    open spec fn readable(m: TomlModel, skip: Option<Seq<char>>) -> bool {
        &&& is_structure(m, 3)
        &&& list_ok(toml_value::field(m, "order"@, 0, skip))
        &&& list_ok(toml_value::field(m, "start"@, 1, skip))
        &&& list_ok(toml_value::field(m, "end"@, 2, skip))
    }

    open spec fn reads(self, m: TomlModel, skip: Option<Seq<char>>) -> bool {
        &&& text::strs(self.order@) == (match opt_list(toml_value::field(m, "order"@, 0, skip)) {
            Some(l) => l,
            None => module_order(),
        })
        &&& opt_strs(self.start) == opt_list(toml_value::field(m, "start"@, 1, skip))
        &&& opt_strs(self.end) == opt_list(toml_value::field(m, "end"@, 2, skip))
    }

    open spec fn is_default(self) -> bool {
        text::strs(self.order@) == module_order() && self.start is None && self.end is None
    }

    fn read(t: &Toml, skip: Option<&str>) -> (r: Option<Self>) {
        if !is_struct(t, 3) {
            return None;
        }
        match (
            read_opt_list(t.get("order", 0, skip)),
            read_opt_list(t.get("start", 1, skip)),
            read_opt_list(t.get("end", 2, skip)),
        ) {
            (Some(order), Some(start), Some(end)) => {
                let order: Vec<String> = match order {
                    Some(v) => v,
                    None => default_module_order(),
                };
                Some(ModulesConfig { order, start, end })
            },
            _ => None,
        }
    }

    fn defaults() -> (r: Self) {
        ModulesConfig::default()
    }
}

impl Default for ModulesConfig {
    fn default() -> (r: Self)
        ensures
            r.is_default(),
    {
        ModulesConfig { order: default_module_order(), start: None, end: None }
    }
}

impl VolumeConfig {
    /// The levels of a kind of output, where it has its own: bluetooth before
    /// headphones before HDMI.
    pub open spec fn own_levels(self, is_bluetooth: bool, is_headphones: bool, is_hdmi: bool) -> Option<
        Templates,
    > {
        if is_bluetooth && self.levels_bluetooth is Some {
            self.levels_bluetooth
        } else if is_headphones && self.levels_headphones is Some {
            self.levels_headphones
        } else if is_hdmi && self.levels_hdmi is Some {
            self.levels_hdmi
        } else {
            None
        }
    }

    /// The levels of a kind of output, where it has its own.
    pub fn get_levels_for_sink(
        &self,
        is_bluetooth: bool,
        is_headphones: bool,
        is_hdmi: bool,
    ) -> (r: Option<&Templates>)
        ensures
            match r {
                Some(t) => self.own_levels(is_bluetooth, is_headphones, is_hdmi) == Some(*t),
                None => self.own_levels(is_bluetooth, is_headphones, is_hdmi) is None,
            },
    {
        if is_bluetooth && self.levels_bluetooth.is_some() {
            return self.levels_bluetooth.as_ref();
        }
        if is_headphones && self.levels_headphones.is_some() {
            return self.levels_headphones.as_ref();
        }
        if is_hdmi && self.levels_hdmi.is_some() {
            return self.levels_hdmi.as_ref();
        }
        None
    }
}

impl Section for VolumeConfig {
    open spec fn readable(m: TomlModel, skip: Option<Seq<char>>) -> bool {
        &&& m is Table
        &&& number_ok(named(m, "step"@, skip), 0, u32::MAX as int)
        &&& number_ok(named(m, "max_volume"@, skip), 0, u32::MAX as int)
        &&& templates_ok(named(m, "levels"@, skip))
        &&& templates_ok(named(m, "levels_headphones"@, skip))
        &&& templates_ok(named(m, "levels_bluetooth"@, skip))
        &&& templates_ok(named(m, "levels_hdmi"@, skip))
        &&& ClickActions::readable(m, skip)
    }

    open spec fn reads(self, m: TomlModel, skip: Option<Seq<char>>) -> bool {
        &&& self.step == number_or(named(m, "step"@, skip), 10)
        &&& self.max_volume == number_or(named(m, "max_volume"@, skip), 150)
        &&& views(self.levels@) == templates_or(named(m, "levels"@, skip), volume_levels())
        &&& opt_views(self.levels_headphones) == opt_templates(named(m, "levels_headphones"@, skip))
        &&& opt_views(self.levels_bluetooth) == opt_templates(named(m, "levels_bluetooth"@, skip))
        &&& opt_views(self.levels_hdmi) == opt_templates(named(m, "levels_hdmi"@, skip))
        &&& self.click.reads(m, skip)
    }

    open spec fn is_default(self) -> bool {
        &&& self.step == 10
        &&& self.max_volume == 150
        &&& views(self.levels@) == volume_levels()
        &&& self.levels_headphones is None
        &&& self.levels_bluetooth is None
        &&& self.levels_hdmi is None
        &&& self.click.is_default()
    }

    fn read(t: &Toml, skip: Option<&str>) -> (r: Option<Self>) {
        if !is_table(t) {
            return None;
        }
        match (
            read_number(t.get("step", 0, skip), 0, u32::MAX as i64, default_step() as i64),
            read_number(t.get("max_volume", 0, skip), 0, u32::MAX as i64, default_max_volume() as i64),
            read_templates_or(t.get("levels", 0, skip), default_volume_levels()),
            read_opt_templates(t.get("levels_headphones", 0, skip)),
            read_opt_templates(t.get("levels_bluetooth", 0, skip)),
            read_opt_templates(t.get("levels_hdmi", 0, skip)),
            ClickActions::read(t, skip),
        ) {
            (
                Some(step),
                Some(max_volume),
                Some(levels),
                Some(levels_headphones),
                Some(levels_bluetooth),
                Some(levels_hdmi),
                Some(click),
            ) => Some(
                VolumeConfig {
                    step: step as u32,
                    max_volume: max_volume as u32,
                    levels,
                    levels_headphones,
                    levels_bluetooth,
                    levels_hdmi,
                    click,
                },
            ),
            _ => None,
        }
    }

    fn defaults() -> (r: Self) {
        VolumeConfig::default()
    }
}

impl Default for VolumeConfig {
    fn default() -> (r: Self)
        ensures
            r.is_default(),
    {
        VolumeConfig {
            step: default_step(),
            max_volume: default_max_volume(),
            levels: default_volume_levels(),
            levels_headphones: None,
            levels_bluetooth: None,
            levels_hdmi: None,
            click: ClickActions::default(),
        }
    }
}

impl Section for BluetoothConfig {
    open spec fn readable(m: TomlModel, skip: Option<Seq<char>>) -> bool {
        m is Table && templates_ok(named(m, "modes"@, skip)) && ClickActions::readable(m, skip)
    }

    open spec fn reads(self, m: TomlModel, skip: Option<Seq<char>>) -> bool {
        views(self.modes@) == templates_or(named(m, "modes"@, skip), bluetooth_modes())
            && self.click.reads(m, skip)
    }

    open spec fn is_default(self) -> bool {
        views(self.modes@) == bluetooth_modes() && self.click.is_default()
    }

    fn read(t: &Toml, skip: Option<&str>) -> (r: Option<Self>) {
        if !is_table(t) {
            return None;
        }
        match (
            read_templates_or(t.get("modes", 0, skip), default_bluetooth_modes()),
            ClickActions::read(t, skip),
        ) {
            (Some(modes), Some(click)) => Some(BluetoothConfig { modes, click }),
            _ => None,
        }
    }

    fn defaults() -> (r: Self) {
        BluetoothConfig::default()
    }
}

impl Default for BluetoothConfig {
    fn default() -> (r: Self)
        ensures
            r.is_default(),
    {
        BluetoothConfig { modes: default_bluetooth_modes(), click: ClickActions::default() }
    }
}

impl Section for NetworkConfig {
    open spec fn readable(m: TomlModel, skip: Option<Seq<char>>) -> bool {
        m is Table && templates_ok(named(m, "modes"@, skip)) && ClickActions::readable(m, skip)
    }

    open spec fn reads(self, m: TomlModel, skip: Option<Seq<char>>) -> bool {
        views(self.modes@) == templates_or(named(m, "modes"@, skip), network_modes())
            && self.click.reads(m, skip)
    }

    open spec fn is_default(self) -> bool {
        views(self.modes@) == network_modes() && self.click.is_default()
    }

    fn read(t: &Toml, skip: Option<&str>) -> (r: Option<Self>) {
        if !is_table(t) {
            return None;
        }
        match (
            read_templates_or(t.get("modes", 0, skip), default_network_modes()),
            ClickActions::read(t, skip),
        ) {
            (Some(modes), Some(click)) => Some(NetworkConfig { modes, click }),
            _ => None,
        }
    }

    fn defaults() -> (r: Self) {
        NetworkConfig::default()
    }
}

impl Default for NetworkConfig {
    fn default() -> (r: Self)
        ensures
            r.is_default(),
    {
        NetworkConfig { modes: default_network_modes(), click: ClickActions::default() }
    }
}

impl Section for MemoryConfig {
    open spec fn readable(m: TomlModel, skip: Option<Seq<char>>) -> bool {
        m is Table && text_ok(named(m, "format"@, skip)) && ClickActions::readable(m, skip)
    }

    open spec fn reads(self, m: TomlModel, skip: Option<Seq<char>>) -> bool {
        self.format@ == text_or(named(m, "format"@, skip), "\u{f035b}\n%uG"@) && self.click.reads(m, skip)
    }

    open spec fn is_default(self) -> bool {
        self.format@ == "\u{f035b}\n%uG"@ && self.click.is_default()
    }

    fn read(t: &Toml, skip: Option<&str>) -> (r: Option<Self>) {
        if !is_table(t) {
            return None;
        }
        match (
            read_text_or(t.get("format", 0, skip), default_memory_format()),
            ClickActions::read(t, skip),
        ) {
            (Some(format), Some(click)) => Some(MemoryConfig { format, click }),
            _ => None,
        }
    }

    fn defaults() -> (r: Self) {
        MemoryConfig::default()
    }
}

impl Default for MemoryConfig {
    fn default() -> (r: Self)
        ensures
            r.is_default(),
    {
        MemoryConfig { format: default_memory_format(), click: ClickActions::default() }
    }
}

impl Section for BrightnessConfig {
    open spec fn readable(m: TomlModel, skip: Option<Seq<char>>) -> bool {
        &&& m is Table
        &&& number_ok(named(m, "step"@, skip), 0, u32::MAX as int)
        &&& templates_ok(named(m, "levels"@, skip))
        &&& ClickActions::readable(m, skip)
    }

    open spec fn reads(self, m: TomlModel, skip: Option<Seq<char>>) -> bool {
        &&& self.step == number_or(named(m, "step"@, skip), 10)
        &&& views(self.levels@) == templates_or(named(m, "levels"@, skip), brightness_levels())
        &&& self.click.reads(m, skip)
    }

    open spec fn is_default(self) -> bool {
        self.step == 10 && views(self.levels@) == brightness_levels() && self.click.is_default()
    }

    fn read(t: &Toml, skip: Option<&str>) -> (r: Option<Self>) {
        if !is_table(t) {
            return None;
        }
        match (
            read_number(t.get("step", 0, skip), 0, u32::MAX as i64, default_step() as i64),
            read_templates_or(t.get("levels", 0, skip), default_brightness_levels()),
            ClickActions::read(t, skip),
        ) {
            (Some(step), Some(levels), Some(click)) => Some(
                BrightnessConfig { step: step as u32, levels, click },
            ),
            _ => None,
        }
    }

    fn defaults() -> (r: Self) {
        BrightnessConfig::default()
    }
}

impl Default for BrightnessConfig {
    fn default() -> (r: Self)
        ensures
            r.is_default(),
    {
        BrightnessConfig {
            step: default_step(),
            levels: default_brightness_levels(),
            click: ClickActions::default(),
        }
    }
}

impl Section for BatteryConfig {
    open spec fn readable(m: TomlModel, skip: Option<Seq<char>>) -> bool {
        &&& m is Table
        &&& number_ok(named(m, "warning_threshold"@, skip), 0, u8::MAX as int)
        &&& number_ok(named(m, "critical_threshold"@, skip), 0, u8::MAX as int)
        &&& templates_ok(named(m, "levels"@, skip))
        &&& ClickActions::readable(m, skip)
    }

    open spec fn reads(self, m: TomlModel, skip: Option<Seq<char>>) -> bool {
        &&& self.warning_threshold == number_or(named(m, "warning_threshold"@, skip), 30)
        &&& self.critical_threshold == number_or(named(m, "critical_threshold"@, skip), 15)
        &&& views(self.levels@) == templates_or(named(m, "levels"@, skip), battery_levels())
        &&& self.click.reads(m, skip)
    }

    open spec fn is_default(self) -> bool {
        &&& self.warning_threshold == 30
        &&& self.critical_threshold == 15
        &&& views(self.levels@) == battery_levels()
        &&& self.click.is_default()
    }

    fn read(t: &Toml, skip: Option<&str>) -> (r: Option<Self>) {
        if !is_table(t) {
            return None;
        }
        match (
            read_number(
                t.get("warning_threshold", 0, skip),
                0,
                u8::MAX as i64,
                default_warning_threshold() as i64,
            ),
            read_number(
                t.get("critical_threshold", 0, skip),
                0,
                u8::MAX as i64,
                default_critical_threshold() as i64,
            ),
            read_templates_or(t.get("levels", 0, skip), default_battery_levels()),
            ClickActions::read(t, skip),
        ) {
            (Some(warning), Some(critical), Some(levels), Some(click)) => Some(
                BatteryConfig {
                    warning_threshold: warning as u8,
                    critical_threshold: critical as u8,
                    levels,
                    click,
                },
            ),
            _ => None,
        }
    }

    fn defaults() -> (r: Self) {
        BatteryConfig::default()
    }
}

impl Default for BatteryConfig {
    fn default() -> (r: Self)
        ensures
            r.is_default(),
    {
        BatteryConfig {
            warning_threshold: default_warning_threshold(),
            critical_threshold: default_critical_threshold(),
            levels: default_battery_levels(),
            click: ClickActions::default(),
        }
    }
}

impl Section for ClockConfig {
    open spec fn readable(m: TomlModel, skip: Option<Seq<char>>) -> bool {
        &&& m is Table
        &&& text_ok(named(m, "format_vertical"@, skip))
        &&& text_ok(named(m, "format_horizontal"@, skip))
        &&& ClickActions::readable(m, skip)
    }

    open spec fn reads(self, m: TomlModel, skip: Option<Seq<char>>) -> bool {
        &&& self.format_vertical@ == text_or(
            named(m, "format_vertical"@, skip),
            "%H:%M\n%a\n%b\n%d/%m"@,
        )
        &&& self.format_horizontal@ == text_or(
            named(m, "format_horizontal"@, skip),
            "%H:%M %a %b %d/%m"@,
        )
        &&& self.click.reads(m, skip)
    }

    open spec fn is_default(self) -> bool {
        &&& self.format_vertical@ == "%H:%M\n%a\n%b\n%d/%m"@
        &&& self.format_horizontal@ == "%H:%M %a %b %d/%m"@
        &&& self.click.is_default()
    }

    fn read(t: &Toml, skip: Option<&str>) -> (r: Option<Self>) {
        if !is_table(t) {
            return None;
        }
        match (
            read_text_or(t.get("format_vertical", 0, skip), default_clock_vertical()),
            read_text_or(t.get("format_horizontal", 0, skip), default_clock_horizontal()),
            ClickActions::read(t, skip),
        ) {
            (Some(format_vertical), Some(format_horizontal), Some(click)) => Some(
                ClockConfig { format_vertical, format_horizontal, click },
            ),
            _ => None,
        }
    }

    fn defaults() -> (r: Self) {
        ClockConfig::default()
    }
}

impl Default for ClockConfig {
    fn default() -> (r: Self)
        ensures
            r.is_default(),
    {
        ClockConfig {
            format_vertical: default_clock_vertical(),
            format_horizontal: default_clock_horizontal(),
            click: ClickActions::default(),
        }
    }
}

impl Section for SpacerConfig {
    open spec fn readable(m: TomlModel, skip: Option<Seq<char>>) -> bool {
        &&& m is Table
        &&& number_ok(named(m, "size"@, skip), i32::MIN as int, i32::MAX as int)
        &&& ClickActions::readable(m, skip)
    }

    open spec fn reads(self, m: TomlModel, skip: Option<Seq<char>>) -> bool {
        self.size == number_or(named(m, "size"@, skip), 5) && self.click.reads(m, skip)
    }

    open spec fn is_default(self) -> bool {
        self.size == 5 && self.click.is_default()
    }

    fn read(t: &Toml, skip: Option<&str>) -> (r: Option<Self>) {
        if !is_table(t) {
            return None;
        }
        match (
            read_number(
                t.get("size", 0, skip),
                i32::MIN as i64,
                i32::MAX as i64,
                default_spacer_size() as i64,
            ),
            ClickActions::read(t, skip),
        ) {
            (Some(size), Some(click)) => Some(SpacerConfig { size: size as i32, click }),
            _ => None,
        }
    }

    fn defaults() -> (r: Self) {
        SpacerConfig::default()
    }
}

impl Default for SpacerConfig {
    fn default() -> (r: Self)
        ensures
            r.is_default(),
    {
        SpacerConfig { size: default_spacer_size(), click: ClickActions::default() }
    }
}

// ---------------------------------------------------------------------------
// The whole file
// ---------------------------------------------------------------------------

/// The first name from `i` on without which the section can be read.
pub open spec fn repair<T: Section>(m: TomlModel, o: Seq<(Seq<char>, TomlModel)>, i: int) -> Option<
    Seq<char>,
>
    decreases o.len() - i,
{
    if i < 0 || i >= o.len() {
        None
    } else if T::readable(m, Some(o[i].0)) {
        Some(o[i].0)
    } else {
        repair::<T>(m, o, i + 1)
    }
}

/// `c` is the section under a name: the value there, if it can be read; else the
/// value without the one field that spoils it; else the defaults.
pub open spec fn is_section<T: Section>(c: T, table: TomlModel, name: Seq<char>) -> bool {
    match toml_value::field(table, name, 0, None) {
        None => c.is_default(),
        Some(v) => if T::readable(v, None) {
            c.reads(v, None)
        } else {
            match v {
                TomlModel::Table(o) => match repair::<T>(v, o, 0) {
                    Some(k) => c.reads(v, Some(k)),
                    None => c.is_default(),
                },
                _ => c.is_default(),
            }
        },
    }
}

/// Reads the section under a name. One bad field costs that field, never the rest
/// of the section; a section that cannot be saved costs itself, never the rest of
/// the file.
pub fn section<T: Section>(table: &Toml, name: &str) -> (r: T)
    requires
        table.model() is Table,
    ensures
        is_section(r, table.model(), name@),
{
    let v: &Toml = match table.get(name, 0, None) {
        Some(v) => v,
        None => return T::defaults(),
    };
    if let Some(c) = T::read(v, None) {
        return c;
    }
    proof {
        toml_value::lemma_model(*v);
    }
    if let Toml::Table(o) = v {
        let ghost ms: Seq<(Seq<char>, TomlModel)> = toml_value::table_model(o@);
        let mut i: usize = 0;
        while i < o.len()
            invariant
                i <= o@.len(),
                ms == toml_value::table_model(o@),
                v.model() == TomlModel::Table(ms),
                toml_value::field(table.model(), name@, 0, None) == Some(v.model()),
                !T::readable(v.model(), None),
                repair::<T>(v.model(), ms, i as int) == repair::<T>(v.model(), ms, 0),
            decreases o@.len() - i,
        {
            assert(ms[i as int] == (o@[i as int].0@, o@[i as int].1.model()));
            if let Some(c) = T::read(v, Some(o[i].0.as_str())) {
                return c;
            }
            i = i + 1;
        }
    }
    T::defaults()
}

/// A number at the top of the file: the number, in 32 bits, or `d` where there is
/// none.
pub open spec fn top_number(table: TomlModel, name: Seq<char>, d: i32) -> i32 {
    match toml_value::field(table, name, 0, None) {
        Some(TomlModel::Integer(n)) => n as i32,
        _ => d,
    }
}

fn read_top_number(table: &Toml, name: &str, d: i32) -> (r: i32)
    ensures
        r == top_number(table.model(), name@, d),
{
    match table.get(name, 0, None) {
        Some(Toml::Integer(n)) => #[verifier::truncate] (*n as i32),
        _ => d,
    }
}

/// `c` is the configuration that a table is, before its numbers are checked.
pub open spec fn is_config(c: AppConfig, table: TomlModel) -> bool {
    &&& is_section(c.position, table, "position"@)
    &&& c.size == top_number(table, "size"@, 50)
    &&& c.spacing == top_number(table, "spacing"@, 0)
    &&& is_section(c.taskbar, table, "taskbar"@)
    &&& is_section(c.tray, table, "tray"@)
    &&& is_section(c.modules, table, "modules"@)
    &&& is_section(c.volume, table, "volume"@)
    &&& is_section(c.bluetooth, table, "bluetooth"@)
    &&& is_section(c.network, table, "network"@)
    &&& is_section(c.memory, table, "memory"@)
    &&& is_section(c.brightness, table, "brightness"@)
    &&& is_section(c.battery, table, "battery"@)
    &&& is_section(c.clock, table, "clock"@)
    &&& is_section(c.spacer, table, "spacer"@)
}

/// `n` where it lies between `lo` and `hi`, else `d`.
pub open spec fn within(n: i32, lo: i32, hi: i32, d: i32) -> i32 {
    if lo <= n <= hi {
        n
    } else {
        d
    }
}

/// A configuration with every number in its range: one outside is replaced by its
/// default, and the thresholds of the battery are swapped where they are the wrong
/// way round.
pub open spec fn checked(c: AppConfig) -> AppConfig {
    AppConfig {
        size: within(c.size, 1, 500, 50),
        spacing: within(c.spacing, 0, 100, 0),
        taskbar: TaskbarConfig { icon_size: within(c.taskbar.icon_size, 1, 256, 32), ..c.taskbar },
        tray: TrayConfig {
            icon_size: within(c.tray.icon_size, 1, 256, 22),
            spacing: within(c.tray.spacing, 0, 100, 4),
        },
        spacer: SpacerConfig { size: within(c.spacer.size, 0, 500, 5), ..c.spacer },
        battery: if c.battery.warning_threshold <= c.battery.critical_threshold {
            BatteryConfig {
                warning_threshold: c.battery.critical_threshold,
                critical_threshold: c.battery.warning_threshold,
                ..c.battery
            }
        } else {
            c.battery
        },
        ..c
    }
}

fn keep_within(n: i32, lo: i32, hi: i32, d: i32) -> (r: i32)
    ensures
        r == within(n, lo, hi, d),
{
    if lo <= n && n <= hi {
        n
    } else {
        d
    }
}

impl AppConfig {
    /// All sections have their defaults.
    pub open spec fn is_default(self) -> bool {
        &&& self.position is Left
        &&& self.size == 50
        &&& self.spacing == 0
        &&& self.taskbar.is_default()
        &&& self.tray.is_default()
        &&& self.modules.is_default()
        &&& self.volume.is_default()
        &&& self.bluetooth.is_default()
        &&& self.network.is_default()
        &&& self.memory.is_default()
        &&& self.brightness.is_default()
        &&& self.battery.is_default()
        &&& self.clock.is_default()
        &&& self.spacer.is_default()
    }

    /// Replaces numbers that would break the layout.
    pub fn validated(self) -> (r: Self)
        ensures
            r == checked(self),
    {
        let mut c: AppConfig = self;
        c.size = keep_within(c.size, 1, 500, 50);
        c.spacing = keep_within(c.spacing, 0, 100, 0);
        c.taskbar.icon_size = keep_within(c.taskbar.icon_size, 1, 256, 32);
        c.tray.icon_size = keep_within(c.tray.icon_size, 1, 256, 22);
        c.tray.spacing = keep_within(c.tray.spacing, 0, 100, 4);
        c.spacer.size = keep_within(c.spacer.size, 0, 500, 5);
        let warning: u8 = c.battery.warning_threshold;
        let critical: u8 = c.battery.critical_threshold;
        if warning <= critical {
            c.battery.warning_threshold = critical;
            c.battery.critical_threshold = warning;
        }
        c
    }
}

impl Default for AppConfig {
    fn default() -> (r: Self)
        ensures
            r.is_default(),
    {
        AppConfig {
            position: BarPosition::default(),
            size: default_size(),
            spacing: 0,
            taskbar: TaskbarConfig::default(),
            tray: TrayConfig::default(),
            modules: ModulesConfig::default(),
            volume: VolumeConfig::default(),
            bluetooth: BluetoothConfig::default(),
            network: NetworkConfig::default(),
            memory: MemoryConfig::default(),
            brightness: BrightnessConfig::default(),
            battery: BatteryConfig::default(),
            clock: ClockConfig::default(),
            spacer: SpacerConfig::default(),
        }
    }
}

/// `c` is the checked configuration that a table is.
pub open spec fn is_checked_config(c: AppConfig, table: TomlModel) -> bool {
    exists|raw: AppConfig| #[trigger] is_config(raw, table) && c == checked(raw)
}

/// Reads the configuration from a table, section by section, before its numbers are
/// checked.
fn read_config(table: &Toml) -> (r: AppConfig)
    requires
        table.model() is Table,
    ensures
        is_config(r, table.model()),
{
    AppConfig {
        position: section(table, "position"),
        size: read_top_number(table, "size", 50),
        spacing: read_top_number(table, "spacing", 0),
        taskbar: section(table, "taskbar"),
        tray: section(table, "tray"),
        modules: section(table, "modules"),
        volume: section(table, "volume"),
        bluetooth: section(table, "bluetooth"),
        network: section(table, "network"),
        memory: section(table, "memory"),
        brightness: section(table, "brightness"),
        battery: section(table, "battery"),
        clock: section(table, "clock"),
        spacer: section(table, "spacer"),
    }
}

/// Builds the configuration from a table, section by section.
pub fn parse_config_table(table: &Toml) -> (r: AppConfig)
    requires
        table.model() is Table,
    ensures
        is_checked_config(r, table.model()),
{
    read_config(table).validated()
}

/// The names that the file may hold at its top.
pub open spec fn known_names() -> Seq<Seq<char>> {
    seq![
        "position"@,
        "size"@,
        "spacing"@,
        "taskbar"@,
        "tray"@,
        "modules"@,
        "volume"@,
        "bluetooth"@,
        "network"@,
        "memory"@,
        "brightness"@,
        "battery"@,
        "clock"@,
        "spacer"@,
    ]
}

fn is_known(name: &str) -> (r: bool)
    ensures
        r == known_names().contains(name@),
{
    let known: Vec<String> = vec![
        "position".to_owned(),
        "size".to_owned(),
        "spacing".to_owned(),
        "taskbar".to_owned(),
        "tray".to_owned(),
        "modules".to_owned(),
        "volume".to_owned(),
        "bluetooth".to_owned(),
        "network".to_owned(),
        "memory".to_owned(),
        "brightness".to_owned(),
        "battery".to_owned(),
        "clock".to_owned(),
        "spacer".to_owned(),
    ];
    assert(text::strs(known@) =~= known_names());
    text::list_has(&known, name)
}

/// The names at the top of a table.
pub open spec fn top_names(o: Seq<(Seq<char>, TomlModel)>) -> Seq<Seq<char>> {
    o.map_values(|e: (Seq<char>, TomlModel)| e.0)
}

/// The names at the top of the file that are not known. They are ignored, with a
/// warning.
pub fn unknown_names(table: &Toml) -> (r: Vec<String>)
    ensures
        table.model() matches TomlModel::Table(o) ==> text::strs(r@) == top_names(o).filter(
            |n: Seq<char>| !known_names().contains(n),
        ),
{
    proof {
        toml_value::lemma_model(*table);
    }
    let mut r: Vec<String> = Vec::new();
    if let Toml::Table(o) = table {
        let ghost ns: Seq<Seq<char>> = top_names(toml_value::table_model(o@));
        let ghost keep = |n: Seq<char>| !known_names().contains(n);
        let mut i: usize = 0;
        assert(ns.take(0) =~= Seq::empty());
        assert(text::strs(r@) =~= ns.take(0).filter(keep)) by {
            reveal(Seq::filter);
        }
        while i < o.len()
            invariant
                i <= o@.len(),
                ns == top_names(toml_value::table_model(o@)),
                keep == (|n: Seq<char>| !known_names().contains(n)),
                text::strs(r@) == ns.take(i as int).filter(keep),
            decreases o@.len() - i,
        {
            proof {
                reveal(Seq::filter);
                assert(ns.take(i + 1).drop_last() =~= ns.take(i as int));
                assert(ns[i as int] == o@[i as int].0@);
            }
            let ghost before: Seq<String> = r@;
            if !is_known(o[i].0.as_str()) {
                r.push(o[i].0.clone());
                assert(text::strs(r@) =~= text::strs(before).push(ns[i as int]));
            }
            i = i + 1;
        }
        assert(ns.take(ns.len() as int) =~= ns);
    }
    r
}

// ---------------------------------------------------------------------------
// Warnings
// ---------------------------------------------------------------------------

/// A message that is there or not, as a list.
pub open spec fn noted(w: Option<Seq<char>>) -> Seq<Seq<char>> {
    match w {
        Some(s) => seq![s],
        None => Seq::empty(),
    }
}

fn note(all: &mut Vec<String>, w: Option<String>)
    ensures
        text::strs(final(all)@) == text::strs(old(all)@) + noted(text::opt(w)),
{
    if let Some(s) = w {
        all.push(s);
    }
    assert(text::strs(all@) =~= text::strs(old(all)@) + noted(text::opt(w)));
}

fn note_if(all: &mut Vec<String>, wrong: bool, words: &str)
    ensures
        text::strs(final(all)@) == text::strs(old(all)@) + noted(
            if wrong {
                Some(words@)
            } else {
                None
            },
        ),
{
    if wrong {
        note(all, Some(words.to_owned()));
    } else {
        note(all, None);
    }
}

/// The warning about a name at the top of the file that is not known.
pub open spec fn unknown_warning(name: Seq<char>) -> Seq<char> {
    "Unknown config key '"@ + name + "', ignoring"@
}

/// The warnings about the names at the top of a table that are not known.
pub open spec fn unknown_warnings(o: Seq<(Seq<char>, TomlModel)>) -> Seq<Seq<char>> {
    top_names(o).filter(|n: Seq<char>| !known_names().contains(n)).map_values(
        |n: Seq<char>| unknown_warning(n),
    )
}

/// The warning about a section that is there and cannot be read as it stands: about
/// the one field that is left out, else about the section.
pub open spec fn section_warning<T: Section>(table: TomlModel, name: Seq<char>) -> Option<Seq<char>> {
    match toml_value::field(table, name, 0, None) {
        None => None,
        Some(v) => if T::readable(v, None) {
            None
        } else {
            let k = match v {
                TomlModel::Table(o) => repair::<T>(v, o, 0),
                _ => None,
            };
            match k {
                Some(k) => Some("Invalid ["@ + name + "] field '"@ + k + "'; using default for it"@),
                None => Some("Invalid ["@ + name + "] section; using defaults for it"@),
            }
        },
    }
}

fn warn_of_section<T: Section>(table: &Toml, name: &str) -> (r: Option<String>)
    requires
        table.model() is Table,
    ensures
        text::opt(r) == section_warning::<T>(table.model(), name@),
{
    let v: &Toml = match table.get(name, 0, None) {
        Some(v) => v,
        None => return None,
    };
    if T::read(v, None).is_some() {
        return None;
    }
    proof {
        toml_value::lemma_model(*v);
    }
    let mut s: String = "Invalid [".to_owned();
    s.append(name);
    if let Toml::Table(o) = v {
        let ghost ms: Seq<(Seq<char>, TomlModel)> = toml_value::table_model(o@);
        let mut i: usize = 0;
        while i < o.len()
            invariant
                i <= o@.len(),
                ms == toml_value::table_model(o@),
                v.model() == TomlModel::Table(ms),
                toml_value::field(table.model(), name@, 0, None) == Some(v.model()),
                !T::readable(v.model(), None),
                repair::<T>(v.model(), ms, i as int) == repair::<T>(v.model(), ms, 0),
                s@ == "Invalid ["@ + name@,
            decreases o@.len() - i,
        {
            assert(ms[i as int] == (o@[i as int].0@, o@[i as int].1.model()));
            if T::read(v, Some(o[i].0.as_str())).is_some() {
                s.append("] field '");
                s.append(o[i].0.as_str());
                s.append("'; using default for it");
                return Some(s);
            }
            i = i + 1;
        }
    }
    s.append("] section; using defaults for it");
    Some(s)
}

/// There is something other than a whole number under a name at the top.
pub open spec fn no_number(table: TomlModel, name: Seq<char>) -> bool {
    match toml_value::field(table, name, 0, None) {
        None => false,
        Some(TomlModel::Integer(_)) => false,
        Some(_) => true,
    }
}

fn has_no_number(table: &Toml, name: &str) -> (r: bool)
    ensures
        r == no_number(table.model(), name@),
{
    match table.get(name, 0, None) {
        None => false,
        Some(Toml::Integer(_)) => false,
        Some(_) => true,
    }
}

/// The warnings about what a table holds, in order: the names that are not known, the
/// sections, the numbers at the top that are none.
pub open spec fn table_warnings(table: TomlModel) -> Seq<Seq<char>>
    recommends
        table is Table,
{
    unknown_warnings(table->Table_0)
        + noted(section_warning::<BarPosition>(table, "position"@))
        + noted(section_warning::<TaskbarConfig>(table, "taskbar"@))
        + noted(section_warning::<TrayConfig>(table, "tray"@))
        + noted(section_warning::<ModulesConfig>(table, "modules"@))
        + noted(section_warning::<VolumeConfig>(table, "volume"@))
        + noted(section_warning::<BluetoothConfig>(table, "bluetooth"@))
        + noted(section_warning::<NetworkConfig>(table, "network"@))
        + noted(section_warning::<MemoryConfig>(table, "memory"@))
        + noted(section_warning::<BrightnessConfig>(table, "brightness"@))
        + noted(section_warning::<BatteryConfig>(table, "battery"@))
        + noted(section_warning::<ClockConfig>(table, "clock"@))
        + noted(section_warning::<SpacerConfig>(table, "spacer"@))
        + noted(if no_number(table, "size"@) { Some("Invalid `size`, using 50"@) } else { None })
        + noted(if no_number(table, "spacing"@) { Some("Invalid `spacing`, using 0"@) } else { None })
}

fn warn_of_table(table: &Toml) -> (r: Vec<String>)
    requires
        table.model() is Table,
    ensures
        text::strs(r@) == table_warnings(table.model()),
{
    let names: Vec<String> = unknown_names(table);
    let ghost ns: Seq<Seq<char>> = text::strs(names@);
    let ghost words: Seq<Seq<char>> = ns.map_values(|n: Seq<char>| unknown_warning(n));
    let mut r: Vec<String> = Vec::new();
    let mut i: usize = 0;
    while i < names.len()
        invariant
            i <= names@.len(),
            ns == text::strs(names@),
            words == ns.map_values(|n: Seq<char>| unknown_warning(n)),
            text::strs(r@) == words.take(i as int),
        decreases names@.len() - i,
    {
        let ghost before: Seq<String> = r@;
        let mut s: String = "Unknown config key '".to_owned();
        s.append(names[i].as_str());
        s.append("', ignoring");
        r.push(s);
        assert(ns[i as int] == names@[i as int]@);
        assert(text::strs(r@) =~= text::strs(before).push(words[i as int]));
        assert(words.take(i + 1) =~= words.take(i as int).push(words[i as int]));
        i = i + 1;
    }
    assert(words.take(i as int) =~= words);
    note(&mut r, warn_of_section::<BarPosition>(table, "position"));
    note(&mut r, warn_of_section::<TaskbarConfig>(table, "taskbar"));
    note(&mut r, warn_of_section::<TrayConfig>(table, "tray"));
    note(&mut r, warn_of_section::<ModulesConfig>(table, "modules"));
    note(&mut r, warn_of_section::<VolumeConfig>(table, "volume"));
    note(&mut r, warn_of_section::<BluetoothConfig>(table, "bluetooth"));
    note(&mut r, warn_of_section::<NetworkConfig>(table, "network"));
    note(&mut r, warn_of_section::<MemoryConfig>(table, "memory"));
    note(&mut r, warn_of_section::<BrightnessConfig>(table, "brightness"));
    note(&mut r, warn_of_section::<BatteryConfig>(table, "battery"));
    note(&mut r, warn_of_section::<ClockConfig>(table, "clock"));
    note(&mut r, warn_of_section::<SpacerConfig>(table, "spacer"));
    note_if(&mut r, has_no_number(table, "size"), "Invalid `size`, using 50");
    note_if(&mut r, has_no_number(table, "spacing"), "Invalid `spacing`, using 0");
    r
}

/// The words about a number outside its range, where it is.
pub open spec fn range_warning(n: i32, lo: i32, hi: i32, words: Seq<char>) -> Option<Seq<char>> {
    if lo <= n <= hi {
        None
    } else {
        Some(words)
    }
}

/// The warnings about the numbers of a configuration that `checked` replaces, in order.
pub open spec fn number_warnings(c: AppConfig) -> Seq<Seq<char>> {
    noted(range_warning(c.size, 1, 500, "Invalid size "@ + text::signed_dec(c.size as int) + ", using 50"@))
        + noted(
        range_warning(c.spacing, 0, 100, "Invalid spacing "@ + text::signed_dec(c.spacing as int) + ", using 0"@),
    ) + noted(range_warning(c.taskbar.icon_size, 1, 256, "Invalid taskbar.icon_size, using 32"@))
        + noted(range_warning(c.tray.icon_size, 1, 256, "Invalid tray.icon_size, using 22"@))
        + noted(range_warning(c.tray.spacing, 0, 100, "Invalid tray.spacing, using 4"@))
        + noted(range_warning(c.spacer.size, 0, 500, "Invalid spacer.size, using 5"@))
        + noted(
        if c.battery.warning_threshold <= c.battery.critical_threshold {
            Some(
                "battery.warning_threshold ("@ + text::dec(c.battery.warning_threshold as nat)
                    + ") must exceed critical ("@ + text::dec(c.battery.critical_threshold as nat)
                    + "); swapping"@,
            )
        } else {
            None
        },
    )
}

fn outside(n: i32, lo: i32, hi: i32) -> (r: bool)
    ensures
        r == !(lo <= n <= hi),
{
    !(lo <= n && n <= hi)
}

fn about_number(before: &str, n: i32, after: &str) -> (r: String)
    ensures
        r@ == before@ + text::signed_dec(n as int) + after@,
{
    let mut s: String = before.to_owned();
    s.append(text::signed_decimal(n as i64).as_str());
    s.append(after);
    s
}

impl AppConfig {
    /// The warnings about the numbers that checking replaces.
    pub fn warnings(&self) -> (r: Vec<String>)
        ensures
            text::strs(r@) == number_warnings(*self),
    {
        let mut r: Vec<String> = Vec::new();
        let size: String = about_number("Invalid size ", self.size, ", using 50");
        let spacing: String = about_number("Invalid spacing ", self.spacing, ", using 0");
        note_if(&mut r, outside(self.size, 1, 500), size.as_str());
        assert(text::strs(r@) =~= noted(range_warning(self.size, 1, 500, size@)));
        note_if(&mut r, outside(self.spacing, 0, 100), spacing.as_str());
        note_if(&mut r, outside(self.taskbar.icon_size, 1, 256), "Invalid taskbar.icon_size, using 32");
        note_if(&mut r, outside(self.tray.icon_size, 1, 256), "Invalid tray.icon_size, using 22");
        note_if(&mut r, outside(self.tray.spacing, 0, 100), "Invalid tray.spacing, using 4");
        note_if(&mut r, outside(self.spacer.size, 0, 500), "Invalid spacer.size, using 5");
        let mut s: String = "battery.warning_threshold (".to_owned();
        s.append(text::decimal(self.battery.warning_threshold as u64).as_str());
        s.append(") must exceed critical (");
        s.append(text::decimal(self.battery.critical_threshold as u64).as_str());
        s.append("); swapping");
        note_if(&mut r, self.battery.warning_threshold <= self.battery.critical_threshold, s.as_str());
        r
    }
}

/// `w` are the warnings about a table: about what it holds, then about the numbers of
/// the configuration that it is.
pub open spec fn are_config_warnings(w: Seq<Seq<char>>, table: TomlModel) -> bool {
    exists|raw: AppConfig| #[trigger]
        is_config(raw, table) && w == table_warnings(table) + number_warnings(raw)
}

/// The warnings about a table, in order.
pub fn config_warnings(table: &Toml) -> (r: Vec<String>)
    requires
        table.model() is Table,
    ensures
        are_config_warnings(text::strs(r@), table.model()),
{
    let mut r: Vec<String> = warn_of_table(table);
    let raw: AppConfig = read_config(table);
    let mut numbers: Vec<String> = raw.warnings();
    let ghost held: Seq<String> = r@;
    let ghost more: Seq<String> = numbers@;
    r.append(&mut numbers);
    assert(text::strs(r@) =~= text::strs(held) + text::strs(more));
    assert(is_config(raw, table.model()));
    r
}

/// `w` are the warnings about a file: those about its table, then those that checking
/// the configuration once more gives. Two equal thresholds of the battery are told of
/// each time.
pub open spec fn are_file_warnings(w: Seq<Seq<char>>, table: TomlModel) -> bool {
    exists|raw: AppConfig| #[trigger]
        is_config(raw, table) && w == table_warnings(table) + number_warnings(raw) + number_warnings(
            checked(raw),
        )
}

/// The warnings about a text of the file, in order: none where it is no TOML, which is
/// an error.
pub fn text_warnings(content: &str) -> (r: Vec<String>)
    ensures
        match toml_value::parsed_toml(content@) {
            Ok(m) => are_file_warnings(text::strs(r@), m),
            Err(_) => r@.len() == 0,
        },
{
    let table: Toml = match toml_value::parse(content) {
        Ok(t) => t,
        Err(_) => return Vec::new(),
    };
    let raw: AppConfig = read_config(&table);
    let mut r: Vec<String> = warn_of_table(&table);
    let mut first: Vec<String> = raw.warnings();
    let ghost read: AppConfig = raw;
    let mut second: Vec<String> = raw.validated().warnings();
    let ghost all: Seq<String> = r@ + first@ + second@;
    proof {
        assert(text::strs(all) =~= text::strs(r@) + text::strs(first@) + text::strs(second@));
        assert(is_config(read, table.model()));
    }
    r.append(&mut first);
    r.append(&mut second);
    r
}

/// A configuration whose numbers are all in their ranges gives no warning about them,
/// and checking leaves it as it is.
pub proof fn law_no_warning_no_change(c: AppConfig)
    ensures
        (number_warnings(c).len() == 0) == (checked(c) == c && c.battery.warning_threshold
            != c.battery.critical_threshold),
{
}

/// The words for a file that is no TOML.
pub open spec fn syntax_error(e: Seq<char>) -> Seq<char> {
    "Syntax error in config.toml: "@ + e
}

/// Parses a TOML text into a configuration.
pub fn reload_config_from_str(content: &str) -> (r: Result<AppConfig, String>)
    ensures
        match r {
            Ok(c) => toml_value::parsed_toml(content@) is Ok && is_checked_config(
                c,
                toml_value::parsed_toml(content@)->Ok_0,
            ),
            Err(e) => toml_value::parsed_toml(content@) is Err && e@ == syntax_error(
                toml_value::parsed_toml(content@)->Err_0,
            ),
        },
{
    match toml_value::parse(content) {
        Ok(t) => {
            let c: AppConfig = parse_config_table(&t);
            proof {
                toml_value::lemma_model(t);
                let raw = choose|raw: AppConfig| #[trigger] is_config(raw, t.model()) && c == checked(raw);
                law_checked_once(raw);
            }
            Ok(c.validated())
        },
        Err(e) => {
            let mut s: String = "Syntax error in config.toml: ".to_owned();
            s.append(e.as_str());
            Err(s)
        },
    }
}

/// What was found where the configuration file is expected.
#[derive(Debug)]
pub enum ConfigFile {
    Missing,
    Unreadable { path: String, error: String },
    Text(String),
}

/// The words for a file that cannot be read.
pub open spec fn read_error(path: Seq<char>, error: Seq<char>) -> Seq<char> {
    "Failed to read "@ + path + ": "@ + error
}

fn read_error_message(path: &str, error: &str) -> (r: String)
    ensures
        r@ == read_error(path@, error@),
{
    let mut s: String = "Failed to read ".to_owned();
    s.append(path);
    s.append(": ");
    s.append(error);
    s
}

/// `c` is the configuration to fall back to.
pub open spec fn is_fallback(c: AppConfig) -> bool {
    exists|d: AppConfig| #[trigger] d.is_default() && c == checked(d)
}

fn fallback() -> (r: AppConfig)
    ensures
        is_fallback(r),
{
    let d: AppConfig = AppConfig::default();
    assert(d.is_default());
    d.validated()
}

/// The configuration to start with, and the error to show where the file could not
/// be read or parsed.
pub fn load_config_with_error(file: &ConfigFile) -> (r: (AppConfig, Option<String>))
    ensures
        match *file {
            ConfigFile::Missing => is_fallback(r.0) && r.1 is None,
            ConfigFile::Unreadable { path, error } => is_fallback(r.0) && text::opt(r.1) == Some(
                "Config error: "@ + read_error(path@, error@),
            ),
            ConfigFile::Text(content) => match toml_value::parsed_toml(content@) {
                Ok(m) => is_checked_config(r.0, m) && r.1 is None,
                Err(e) => is_fallback(r.0) && text::opt(r.1) == Some(syntax_error(e)),
            },
        },
{
    match file {
        ConfigFile::Missing => (fallback(), None),
        ConfigFile::Unreadable { path, error } => {
            let mut s: String = "Config error: ".to_owned();
            s.append(read_error_message(path.as_str(), error.as_str()).as_str());
            (fallback(), Some(s))
        },
        ConfigFile::Text(content) => match reload_config_from_str(content.as_str()) {
            Ok(c) => (c, None),
            Err(e) => (fallback(), Some(e)),
        },
    }
}

/// Reads the configuration anew: the configuration, or the words of the error.
/// `read` is the text of the file, or its path and why it could not be read.
pub fn reload_config(read: Result<&str, (&str, &str)>) -> (r: Result<AppConfig, String>)
    ensures
        match read {
            Ok(content) => match toml_value::parsed_toml(content@) {
                Ok(m) => r matches Ok(c) && is_checked_config(c, m),
                Err(e) => r matches Err(w) && w@ == syntax_error(e),
            },
            Err((path, error)) => r matches Err(w) && w@ == read_error(path@, error@),
        },
{
    match read {
        Ok(content) => reload_config_from_str(content),
        Err((path, error)) => Err(read_error_message(path, error)),
    }
}

/// An environment variable that is set to something.
pub open spec fn is_set(v: Option<Seq<char>>) -> bool {
    v is Some && !text::is_blank(v->0)
}

/// The directory of the configuration: under `XDG_CONFIG_HOME`, else under
/// `.config` in the home directory, else under `.config` right here.
pub open spec fn config_dir(xdg: Option<Seq<char>>, home: Option<Seq<char>>) -> Seq<char> {
    if is_set(xdg) {
        paths::joined(xdg->0, "niri-bar"@)
    } else if is_set(home) {
        paths::joined(paths::joined(home->0, ".config"@), "niri-bar"@)
    } else {
        ".config/niri-bar"@
    }
}

/// The directory of the configuration, by the environment's `XDG_CONFIG_HOME` and
/// `HOME`.
pub fn get_config_dir(xdg_config_home: Option<&str>, home: Option<&str>) -> (r: String)
    ensures
        r@ == config_dir(text::opt_str(xdg_config_home), text::opt_str(home)),
{
    if let Some(dir) = xdg_config_home {
        if !text::blank(dir) {
            return paths::join(dir, "niri-bar");
        }
    }
    if let Some(dir) = home {
        if !text::blank(dir) {
            return paths::join(paths::join(dir, ".config").as_str(), "niri-bar");
        }
    }
    ".config/niri-bar".to_owned()
}

/// Checking a configuration twice is checking it once.
pub proof fn law_checked_once(c: AppConfig)
    ensures
        checked(checked(c)) == checked(c),
{
}

/// Every number of a checked configuration lies in its range, and the battery
/// warns no later than it is critical.
pub proof fn law_checked_is_in_range(c: AppConfig)
    ensures
        1 <= checked(c).size <= 500,
        0 <= checked(c).spacing <= 100,
        1 <= checked(c).taskbar.icon_size <= 256,
        1 <= checked(c).tray.icon_size <= 256,
        0 <= checked(c).tray.spacing <= 100,
        0 <= checked(c).spacer.size <= 500,
        checked(c).battery.warning_threshold >= checked(c).battery.critical_threshold,
        c.battery.warning_threshold != c.battery.critical_threshold
            ==> checked(c).battery.warning_threshold > checked(c).battery.critical_threshold,
{
}

/// A section that leaving out one field repairs is repaired by no other: only one
/// field was bad, and it is the one that is left out.
pub proof fn law_one_field_is_bad(m: TomlModel, a: Seq<char>, b: Seq<char>)
    requires
        m is Table,
    ensures
        !TaskbarConfig::readable(m, None) && TaskbarConfig::readable(m, Some(a)) && TaskbarConfig::readable(
            m,
            Some(b),
        ) ==> a == b,
        !TrayConfig::readable(m, None) && TrayConfig::readable(m, Some(a)) && TrayConfig::readable(
            m,
            Some(b),
        ) ==> a == b,
        !ModulesConfig::readable(m, None) && ModulesConfig::readable(m, Some(a))
            && ModulesConfig::readable(m, Some(b)) ==> a == b,
        !VolumeConfig::readable(m, None) && VolumeConfig::readable(m, Some(a)) && VolumeConfig::readable(
            m,
            Some(b),
        ) ==> a == b,
        !BluetoothConfig::readable(m, None) && BluetoothConfig::readable(m, Some(a))
            && BluetoothConfig::readable(m, Some(b)) ==> a == b,
        !NetworkConfig::readable(m, None) && NetworkConfig::readable(m, Some(a))
            && NetworkConfig::readable(m, Some(b)) ==> a == b,
        !MemoryConfig::readable(m, None) && MemoryConfig::readable(m, Some(a)) && MemoryConfig::readable(
            m,
            Some(b),
        ) ==> a == b,
        !BrightnessConfig::readable(m, None) && BrightnessConfig::readable(m, Some(a))
            && BrightnessConfig::readable(m, Some(b)) ==> a == b,
        !BatteryConfig::readable(m, None) && BatteryConfig::readable(m, Some(a))
            && BatteryConfig::readable(m, Some(b)) ==> a == b,
        !ClockConfig::readable(m, None) && ClockConfig::readable(m, Some(a)) && ClockConfig::readable(
            m,
            Some(b),
        ) ==> a == b,
        !SpacerConfig::readable(m, None) && SpacerConfig::readable(m, Some(a)) && SpacerConfig::readable(
            m,
            Some(b),
        ) ==> a == b,
{
}

/// An empty file gives the defaults.
pub proof fn law_empty_file_is_the_default(c: AppConfig)
    requires
        is_config(c, TomlModel::Table(Seq::empty())),
    ensures
        c.is_default(),
{
}

/// A section depends on what stands under its own name alone: whatever else two files
/// hold, in whatever order, a bad section costs itself, never the rest.
pub proof fn law_bad_section_costs_itself<T: Section>(c: T, a: TomlModel, b: TomlModel, name: Seq<char>)
    requires
        toml_value::field(a, name, 0, None) == toml_value::field(b, name, 0, None),
    ensures
        is_section(c, a, name) == is_section(c, b, name),
        section_warning::<T>(a, name) == section_warning::<T>(b, name),
{
}

// ---------------------------------------------------------------------------
// What is read of a section
// ---------------------------------------------------------------------------

/// True, false or nothing.
pub open spec fn fits_flag(v: Option<TomlModel>) -> bool {
    v matches Some(f) ==> f is Boolean
}

/// A whole number between two bounds, or nothing.
pub open spec fn fits_number(v: Option<TomlModel>, lo: int, hi: int) -> bool {
    v matches Some(f) ==> (f matches TomlModel::Integer(n) && lo <= n <= hi)
}

/// A text, a date or a time.
pub open spec fn is_words(m: TomlModel) -> bool {
    m is Text || m is Datetime
}

/// A text or nothing.
pub open spec fn fits_text(v: Option<TomlModel>) -> bool {
    v matches Some(f) ==> is_words(f)
}

/// A list of texts, or nothing.
pub open spec fn fits_list(v: Option<TomlModel>) -> bool {
    v matches Some(f) ==> (f matches TomlModel::Array(a) && forall|i: int|
        0 <= i < a.len() ==> is_words(#[trigger] a[i]))
}

/// A table of texts, or nothing.
pub open spec fn fits_templates(v: Option<TomlModel>) -> bool {
    v matches Some(f) ==> (f matches TomlModel::Table(o) && forall|i: int|
        0 <= i < o.len() ==> is_words((#[trigger] o[i]).1))
}

/// A switch is what is said of it, and `d` where nothing is.
pub open spec fn flag_is(b: bool, v: Option<TomlModel>, d: bool) -> bool {
    match v {
        Some(f) => f == TomlModel::Boolean(b),
        None => b == d,
    }
}

/// A number is what is said of it, and `d` where nothing is.
pub open spec fn number_is(n: int, v: Option<TomlModel>, d: int) -> bool {
    match v {
        Some(f) => f matches TomlModel::Integer(k) && k == n,
        None => n == d,
    }
}

/// A text is what a value is.
pub open spec fn words_are(s: Seq<char>, m: TomlModel) -> bool {
    m == TomlModel::Text(s) || m == TomlModel::Datetime(s)
}

/// A text is what is said of it, and `d` where nothing is.
pub open spec fn text_is(s: Seq<char>, v: Option<TomlModel>, d: Seq<char>) -> bool {
    match v {
        Some(f) => words_are(s, f),
        None => s == d,
    }
}

/// A command is what is said of it, and there is none where nothing is.
pub open spec fn command_is(c: Option<String>, v: Option<TomlModel>) -> bool {
    match (c, v) {
        (Some(s), Some(f)) => words_are(s@, f),
        (None, None) => true,
        _ => false,
    }
}

/// A list holds the texts that an array holds, in their order.
pub open spec fn list_is(l: Seq<String>, m: TomlModel) -> bool {
    m matches TomlModel::Array(a) && a.len() == l.len() && forall|i: int|
        0 <= i < l.len() ==> words_are((#[trigger] l[i])@, a[i])
}

/// A list is what is said of it, and there is none where nothing is.
pub open spec fn opt_list_is(l: Option<Vec<String>>, v: Option<TomlModel>) -> bool {
    match (l, v) {
        (Some(s), Some(f)) => list_is(s@, f),
        (None, None) => true,
        _ => false,
    }
}

/// Templates are those that a table holds: each name has the last text under it, and there
/// are no other names.
pub open spec fn templates_are(m: Map<Seq<char>, String>, f: TomlModel) -> bool {
    f matches TomlModel::Table(o) && (forall|i: int|
        0 <= i < o.len() && (forall|j: int| i < j < o.len() ==> (#[trigger] o[j]).0 != o[i].0) ==> m.dom().contains(
            (#[trigger] o[i]).0,
        ) && words_are(m[o[i].0]@, o[i].1)) && (forall|k: Seq<char>| #[trigger]
        m.dom().contains(k) ==> exists|i: int| 0 <= i < o.len() && (#[trigger] o[i]).0 == k)
}

/// Templates are these.
pub open spec fn templates_equal(m: Map<Seq<char>, String>, d: Map<Seq<char>, Seq<char>>) -> bool {
    forall|k: Seq<char>|
        (#[trigger] m.dom().contains(k) <==> d.dom().contains(k)) && (m.dom().contains(k) ==> m[k]@ == d[k])
}

/// Templates are what is said of them, and `d` where nothing is.
pub open spec fn levels_are(m: Map<Seq<char>, String>, v: Option<TomlModel>, d: Map<Seq<char>, Seq<char>>) -> bool {
    match v {
        Some(f) => templates_are(m, f),
        None => templates_equal(m, d),
    }
}

/// Templates are what is said of them, and there are none where nothing is.
pub open spec fn opt_levels_are(m: Option<Templates>, v: Option<TomlModel>) -> bool {
    match (m, v) {
        (Some(t), Some(f)) => templates_are(t@, f),
        (None, None) => true,
        _ => false,
    }
}

proof fn lemma_views(m: Map<Seq<char>, String>, d: Map<Seq<char>, Seq<char>>)
    ensures
        views(m) == d <==> templates_equal(m, d),
{
    let w = views(m);
    assert(w.dom() =~= m.dom());
    if w == d {
        assert forall|k: Seq<char>|
            (#[trigger] m.dom().contains(k) <==> d.dom().contains(k)) && (m.dom().contains(k) ==> m[k]@ == d[k]) by {
            assert(m.dom().contains(k) <==> w.dom().contains(k));
            if m.dom().contains(k) {
                assert(w[k] == m[k]@);
            }
        }
    }
    if templates_equal(m, d) {
        assert forall|k: Seq<char>| w.dom().contains(k) <==> d.dom().contains(k) by {
            assert(m.dom().contains(k) <==> d.dom().contains(k));
        }
        assert(w.dom() =~= d.dom());
        assert forall|k: Seq<char>| w.dom().contains(k) implies w[k] == d[k] by {
            assert(m.dom().contains(k));
            assert(w[k] == m[k]@);
        }
        assert(w =~= d);
    }
}

proof fn lemma_templates_good(o: Seq<(Seq<char>, TomlModel)>)
    ensures
        templates_from(o) is Some <==> forall|i: int| 0 <= i < o.len() ==> is_words((#[trigger] o[i]).1),
    decreases o.len(),
{
    if o.len() > 0 {
        let d = o.drop_last();
        lemma_templates_good(d);
        if forall|i: int| 0 <= i < o.len() ==> is_words((#[trigger] o[i]).1) {
            assert forall|i: int| 0 <= i < d.len() implies is_words((#[trigger] d[i]).1) by {
                assert(d[i] == o[i]);
            }
            assert(is_words(o[o.len() - 1].1));
        }
        if templates_from(o) is Some {
            assert forall|i: int| 0 <= i < o.len() implies is_words((#[trigger] o[i]).1) by {
                if i < o.len() - 1 {
                    assert(d[i] == o[i]);
                }
            }
        }
    }
}

proof fn lemma_template_under(o: Seq<(Seq<char>, TomlModel)>, i: int)
    requires
        0 <= i < o.len(),
        forall|j: int| i < j < o.len() ==> (#[trigger] o[j]).0 != o[i].0,
        templates_from(o) is Some,
    ensures
        templates_from(o)->0.dom().contains(o[i].0),
        words_are(templates_from(o)->0[o[i].0], o[i].1),
    decreases o.len(),
{
    if i < o.len() - 1 {
        let d = o.drop_last();
        assert(d[i] == o[i]);
        assert(o[o.len() - 1].0 != o[i].0);
        assert forall|j: int| i < j < d.len() implies (#[trigger] d[j]).0 != d[i].0 by {
            assert(o[j].0 != o[i].0);
        }
        lemma_template_under(d, i);
    }
}

proof fn lemma_template_named(o: Seq<(Seq<char>, TomlModel)>, k: Seq<char>)
    requires
        templates_from(o) is Some,
        templates_from(o)->0.dom().contains(k),
    ensures
        exists|i: int| 0 <= i < o.len() && (#[trigger] o[i]).0 == k,
    decreases o.len(),
{
    if o.last().0 == k {
        assert(o[o.len() - 1].0 == k);
    } else {
        let d = o.drop_last();
        lemma_template_named(d, k);
        let i = choose|i: int| 0 <= i < d.len() && (#[trigger] d[i]).0 == k;
        assert(o[i].0 == k);
    }
}

proof fn lemma_templates(m: Map<Seq<char>, String>, f: TomlModel)
    ensures
        templates_value(f) is Some <==> (f matches TomlModel::Table(o) && forall|i: int|
            0 <= i < o.len() ==> is_words((#[trigger] o[i]).1)),
        templates_value(f) == Some(views(m)) ==> templates_are(m, f),
{
    if let TomlModel::Table(o) = f {
        lemma_templates_good(o);
        if templates_value(f) == Some(views(m)) {
            let t = templates_from(o)->0;
            lemma_views(m, t);
            assert forall|i: int|
                0 <= i < o.len() && (forall|j: int| i < j < o.len() ==> (#[trigger] o[j]).0 != o[i].0) implies m.dom().contains(
                (#[trigger] o[i]).0,
            ) && words_are(m[o[i].0]@, o[i].1) by {
                lemma_template_under(o, i);
                assert(m.dom().contains(o[i].0) <==> t.dom().contains(o[i].0));
            }
            assert forall|k: Seq<char>| #[trigger] m.dom().contains(k) implies exists|i: int|
                0 <= i < o.len() && (#[trigger] o[i]).0 == k by {
                assert(m.dom().contains(k) <==> t.dom().contains(k));
                lemma_template_named(o, k);
            }
        }
    }
}

proof fn lemma_levels(m: Map<Seq<char>, String>, v: Option<TomlModel>, d: Map<Seq<char>, Seq<char>>)
    ensures
        templates_ok(v) == fits_templates(v),
        templates_ok(v) && views(m) == templates_or(v, d) ==> levels_are(m, v, d),
{
    match v {
        Some(f) => {
            lemma_templates(m, f);
        },
        None => {
            lemma_views(m, d);
        },
    }
}

proof fn lemma_opt_levels(m: Option<Templates>, v: Option<TomlModel>)
    ensures
        templates_ok(v) == fits_templates(v),
        templates_ok(v) && opt_views(m) == opt_templates(v) ==> opt_levels_are(m, v),
{
    if let Some(f) = v {
        if let Some(t) = m {
            lemma_templates(t@, f);
        } else {
            lemma_templates(Map::empty(), f);
        }
    }
}

proof fn lemma_list(l: Seq<String>, f: TomlModel)
    requires
        f is Array,
        text::strs(l) == list_of(f->Array_0),
        list_ok(Some(f)),
    ensures
        list_is(l, f),
{
    let a = f->Array_0;
    assert(text::strs(l).len() == l.len());
    assert forall|i: int| 0 <= i < l.len() implies words_are((#[trigger] l[i])@, a[i]) by {
        assert(text::strs(l)[i] == l[i]@);
        assert(text_value(a[i]) is Some);
    }
}

proof fn lemma_opt_list(l: Option<Vec<String>>, v: Option<TomlModel>)
    ensures
        list_ok(v) == fits_list(v),
        list_ok(v) && opt_strs(l) == opt_list(v) ==> opt_list_is(l, v),
{
    if let Some(f) = v {
        if let TomlModel::Array(a) = f {
            if list_ok(v) {
                assert forall|i: int| 0 <= i < a.len() implies is_words(#[trigger] a[i]) by {
                    assert(text_value(a[i]) is Some);
                }
            }
            if fits_list(v) {
                assert forall|i: int| 0 <= i < a.len() implies text_value(#[trigger] a[i]) is Some by {
                    assert(is_words(a[i]));
                }
            }
            if list_ok(v) && opt_strs(l) == opt_list(v) {
                lemma_list(l->0@, f);
            }
        }
    }
}

/// What is said of the clicks of a section.
pub open spec fn clicks_said(
    m: TomlModel,
    left: Option<TomlModel>,
    right: Option<TomlModel>,
    middle: Option<TomlModel>,
) -> bool {
    &&& toml_value::says(m, "on_click_left"@, 0, left)
    &&& toml_value::says(m, "on_click_right"@, 0, right)
    &&& toml_value::says(m, "on_click_middle"@, 0, middle)
}

/// The commands of a section are those that are said of its clicks.
pub open spec fn clicks_are(
    c: ClickActions,
    left: Option<TomlModel>,
    right: Option<TomlModel>,
    middle: Option<TomlModel>,
) -> bool {
    &&& command_is(c.on_click_left, left)
    &&& command_is(c.on_click_right, right)
    &&& command_is(c.on_click_middle, middle)
}

/// Each click has the command under its own name.
pub proof fn law_clicks_are_what_is_said(
    m: TomlModel,
    c: ClickActions,
    left: Option<TomlModel>,
    right: Option<TomlModel>,
    middle: Option<TomlModel>,
)
    requires
        clicks_said(m, left, right, middle),
    ensures
        ClickActions::readable(m, None) <==> fits_text(left) && fits_text(right) && fits_text(middle),
        ClickActions::readable(m, None) && c.reads(m, None) ==> clicks_are(c, left, right, middle),
{
    toml_value::law_field_is_what_is_said(m, "on_click_left"@, 0, left);
    toml_value::law_field_is_what_is_said(m, "on_click_right"@, 0, right);
    toml_value::law_field_is_what_is_said(m, "on_click_middle"@, 0, middle);
}

/// Each part of the taskbar's section is what is said under its own name, and its default
/// where nothing is.
pub proof fn law_taskbar_is_what_is_said(
    m: TomlModel,
    c: TaskbarConfig,
    enabled: Option<TomlModel>,
    icon_size: Option<TomlModel>,
    only_current: Option<TomlModel>,
    tooltips: Option<TomlModel>,
)
    requires
        toml_value::says(m, "enabled"@, 0, enabled),
        toml_value::says(m, "icon_size"@, 1, icon_size),
        toml_value::says(m, "only_current_workspace"@, 2, only_current),
        toml_value::says(m, "show_tooltips"@, 3, tooltips),
    ensures
        TaskbarConfig::readable(m, None) <==> (m matches TomlModel::Array(a) ==> a.len() <= 4) && fits_flag(enabled)
            && fits_number(icon_size, i32::MIN as int, i32::MAX as int) && fits_flag(only_current) && fits_flag(tooltips),
        TaskbarConfig::readable(m, None) && c.reads(m, None) ==> flag_is(c.enabled, enabled, true) && number_is(
            c.icon_size as int,
            icon_size,
            32,
        ) && flag_is(c.only_current_workspace, only_current, true) && flag_is(c.show_tooltips, tooltips, true),
{
    toml_value::law_field_is_what_is_said(m, "enabled"@, 0, enabled);
    toml_value::law_field_is_what_is_said(m, "icon_size"@, 1, icon_size);
    toml_value::law_field_is_what_is_said(m, "only_current_workspace"@, 2, only_current);
    toml_value::law_field_is_what_is_said(m, "show_tooltips"@, 3, tooltips);
}

/// Each part of the tray's section is what is said under its own name, and its default where
/// nothing is.
pub proof fn law_tray_is_what_is_said(m: TomlModel, c: TrayConfig, icon_size: Option<TomlModel>, spacing: Option<TomlModel>)
    requires
        toml_value::says(m, "icon_size"@, 0, icon_size),
        toml_value::says(m, "spacing"@, 1, spacing),
    ensures
        TrayConfig::readable(m, None) <==> (m matches TomlModel::Array(a) ==> a.len() <= 2) && fits_number(
            icon_size,
            i32::MIN as int,
            i32::MAX as int,
        ) && fits_number(spacing, i32::MIN as int, i32::MAX as int),
        TrayConfig::readable(m, None) && c.reads(m, None) ==> number_is(c.icon_size as int, icon_size, 22) && number_is(
            c.spacing as int,
            spacing,
            4,
        ),
{
    toml_value::law_field_is_what_is_said(m, "icon_size"@, 0, icon_size);
    toml_value::law_field_is_what_is_said(m, "spacing"@, 1, spacing);
}

/// The lists of modules are what is said under their own names. Where nothing is said of the
/// order, it is the usual one.
pub proof fn law_modules_are_what_is_said(
    m: TomlModel,
    c: ModulesConfig,
    order: Option<TomlModel>,
    start: Option<TomlModel>,
    end: Option<TomlModel>,
)
    requires
        toml_value::says(m, "order"@, 0, order),
        toml_value::says(m, "start"@, 1, start),
        toml_value::says(m, "end"@, 2, end),
    ensures
        ModulesConfig::readable(m, None) <==> (m matches TomlModel::Array(a) ==> a.len() <= 3) && fits_list(order)
            && fits_list(start) && fits_list(end),
        ModulesConfig::readable(m, None) && c.reads(m, None) ==> opt_list_is(c.start, start) && opt_list_is(c.end, end)
            && (order matches Some(f) ==> list_is(c.order@, f)) && (order is None ==> text::strs(c.order@) == seq![
            "tray"@,
            "volume"@,
            "bluetooth"@,
            "network"@,
            "memory"@,
            "brightness"@,
            "battery"@,
            "clock"@,
        ]),
{
    toml_value::law_field_is_what_is_said(m, "order"@, 0, order);
    toml_value::law_field_is_what_is_said(m, "start"@, 1, start);
    toml_value::law_field_is_what_is_said(m, "end"@, 2, end);
    lemma_opt_list(c.start, start);
    lemma_opt_list(c.end, end);
    lemma_opt_list(Some(c.order), order);
}

/// Each part of the volume's section is what is said under its own name, and its default
/// where nothing is.
pub proof fn law_volume_is_what_is_said(
    m: TomlModel,
    c: VolumeConfig,
    step: Option<TomlModel>,
    max: Option<TomlModel>,
    levels: Option<TomlModel>,
    headphones: Option<TomlModel>,
    bluetooth: Option<TomlModel>,
    hdmi: Option<TomlModel>,
)
    requires
        m is Table,
        toml_value::says(m, "step"@, 0, step),
        toml_value::says(m, "max_volume"@, 0, max),
        toml_value::says(m, "levels"@, 0, levels),
        toml_value::says(m, "levels_headphones"@, 0, headphones),
        toml_value::says(m, "levels_bluetooth"@, 0, bluetooth),
        toml_value::says(m, "levels_hdmi"@, 0, hdmi),
    ensures
        VolumeConfig::readable(m, None) <==> fits_number(step, 0, u32::MAX as int) && fits_number(max, 0, u32::MAX as int)
            && fits_templates(levels) && fits_templates(headphones) && fits_templates(bluetooth) && fits_templates(hdmi)
            && ClickActions::readable(m, None),
        VolumeConfig::readable(m, None) && c.reads(m, None) ==> number_is(c.step as int, step, 10) && number_is(
            c.max_volume as int,
            max,
            150,
        ) && levels_are(c.levels@, levels, volume_levels()) && opt_levels_are(c.levels_headphones, headphones)
            && opt_levels_are(c.levels_bluetooth, bluetooth) && opt_levels_are(c.levels_hdmi, hdmi) && c.click.reads(
            m,
            None,
        ),
{
    toml_value::law_field_is_what_is_said(m, "step"@, 0, step);
    toml_value::law_field_is_what_is_said(m, "max_volume"@, 0, max);
    toml_value::law_field_is_what_is_said(m, "levels"@, 0, levels);
    toml_value::law_field_is_what_is_said(m, "levels_headphones"@, 0, headphones);
    toml_value::law_field_is_what_is_said(m, "levels_bluetooth"@, 0, bluetooth);
    toml_value::law_field_is_what_is_said(m, "levels_hdmi"@, 0, hdmi);
    lemma_levels(c.levels@, levels, volume_levels());
    lemma_opt_levels(c.levels_headphones, headphones);
    lemma_opt_levels(c.levels_bluetooth, bluetooth);
    lemma_opt_levels(c.levels_hdmi, hdmi);
}

/// The modes of bluetooth and of the network are what is said under their name, and their
/// own defaults where nothing is.
pub proof fn law_modes_are_what_is_said(m: TomlModel, b: BluetoothConfig, n: NetworkConfig, modes: Option<TomlModel>)
    requires
        m is Table,
        toml_value::says(m, "modes"@, 0, modes),
    ensures
        BluetoothConfig::readable(m, None) <==> fits_templates(modes) && ClickActions::readable(m, None),
        NetworkConfig::readable(m, None) <==> fits_templates(modes) && ClickActions::readable(m, None),
        BluetoothConfig::readable(m, None) && b.reads(m, None) ==> levels_are(b.modes@, modes, bluetooth_modes())
            && b.click.reads(m, None),
        NetworkConfig::readable(m, None) && n.reads(m, None) ==> levels_are(n.modes@, modes, network_modes())
            && n.click.reads(m, None),
{
    toml_value::law_field_is_what_is_said(m, "modes"@, 0, modes);
    lemma_levels(b.modes@, modes, bluetooth_modes());
    lemma_levels(n.modes@, modes, network_modes());
}

/// Each part of the brightness's section is what is said under its own name, and its default
/// where nothing is.
pub proof fn law_brightness_is_what_is_said(
    m: TomlModel,
    c: BrightnessConfig,
    step: Option<TomlModel>,
    levels: Option<TomlModel>,
)
    requires
        m is Table,
        toml_value::says(m, "step"@, 0, step),
        toml_value::says(m, "levels"@, 0, levels),
    ensures
        BrightnessConfig::readable(m, None) <==> fits_number(step, 0, u32::MAX as int) && fits_templates(levels)
            && ClickActions::readable(m, None),
        BrightnessConfig::readable(m, None) && c.reads(m, None) ==> number_is(c.step as int, step, 10) && levels_are(
            c.levels@,
            levels,
            brightness_levels(),
        ) && c.click.reads(m, None),
{
    toml_value::law_field_is_what_is_said(m, "step"@, 0, step);
    toml_value::law_field_is_what_is_said(m, "levels"@, 0, levels);
    lemma_levels(c.levels@, levels, brightness_levels());
}

/// Each part of the battery's section is what is said under its own name, and its default
/// where nothing is.
pub proof fn law_battery_is_what_is_said(
    m: TomlModel,
    c: BatteryConfig,
    warning: Option<TomlModel>,
    critical: Option<TomlModel>,
    levels: Option<TomlModel>,
)
    requires
        m is Table,
        toml_value::says(m, "warning_threshold"@, 0, warning),
        toml_value::says(m, "critical_threshold"@, 0, critical),
        toml_value::says(m, "levels"@, 0, levels),
    ensures
        BatteryConfig::readable(m, None) <==> fits_number(warning, 0, 255) && fits_number(critical, 0, 255)
            && fits_templates(levels) && ClickActions::readable(m, None),
        BatteryConfig::readable(m, None) && c.reads(m, None) ==> number_is(c.warning_threshold as int, warning, 30)
            && number_is(c.critical_threshold as int, critical, 15) && levels_are(c.levels@, levels, battery_levels())
            && c.click.reads(m, None),
{
    toml_value::law_field_is_what_is_said(m, "warning_threshold"@, 0, warning);
    toml_value::law_field_is_what_is_said(m, "critical_threshold"@, 0, critical);
    toml_value::law_field_is_what_is_said(m, "levels"@, 0, levels);
    lemma_levels(c.levels@, levels, battery_levels());
}

/// The formats of the clock and of the memory, and the size of a spacer, are what is said
/// under their own names, and their defaults where nothing is.
pub proof fn law_formats_are_what_is_said(
    m: TomlModel,
    k: ClockConfig,
    y: MemoryConfig,
    vertical: Option<TomlModel>,
    horizontal: Option<TomlModel>,
    format: Option<TomlModel>,
)
    requires
        m is Table,
        toml_value::says(m, "format_vertical"@, 0, vertical),
        toml_value::says(m, "format_horizontal"@, 0, horizontal),
        toml_value::says(m, "format"@, 0, format),
    ensures
        ClockConfig::readable(m, None) <==> fits_text(vertical) && fits_text(horizontal) && ClickActions::readable(m, None),
        MemoryConfig::readable(m, None) <==> fits_text(format) && ClickActions::readable(m, None),
        ClockConfig::readable(m, None) && k.reads(m, None) ==> text_is(
            k.format_vertical@,
            vertical,
            "%H:%M\n%a\n%b\n%d/%m"@,
        ) && text_is(k.format_horizontal@, horizontal, "%H:%M %a %b %d/%m"@) && k.click.reads(m, None),
        MemoryConfig::readable(m, None) && y.reads(m, None) ==> text_is(y.format@, format, "\u{f035b}\n%uG"@)
            && y.click.reads(m, None),
{
    toml_value::law_field_is_what_is_said(m, "format_vertical"@, 0, vertical);
    toml_value::law_field_is_what_is_said(m, "format_horizontal"@, 0, horizontal);
    toml_value::law_field_is_what_is_said(m, "format"@, 0, format);
}

/// The size of a spacer is what is said under its name, and five where nothing is.
pub proof fn law_spacer_is_what_is_said(m: TomlModel, c: SpacerConfig, size: Option<TomlModel>)
    requires
        m is Table,
        toml_value::says(m, "size"@, 0, size),
    ensures
        SpacerConfig::readable(m, None) <==> fits_number(size, i32::MIN as int, i32::MAX as int) && ClickActions::readable(
            m,
            None,
        ),
        SpacerConfig::readable(m, None) && c.reads(m, None) ==> number_is(c.size as int, size, 5) && c.click.reads(m, None),
{
    toml_value::law_field_is_what_is_said(m, "size"@, 0, size);
}

/// What is no table is no section of a module; what is neither a table nor an array is no
/// section at all.
pub proof fn law_sections_are_tables(m: TomlModel, skip: Option<Seq<char>>)
    requires
        !(m is Table),
    ensures
        !VolumeConfig::readable(m, skip),
        !BluetoothConfig::readable(m, skip),
        !NetworkConfig::readable(m, skip),
        !MemoryConfig::readable(m, skip),
        !BrightnessConfig::readable(m, skip),
        !BatteryConfig::readable(m, skip),
        !ClockConfig::readable(m, skip),
        !SpacerConfig::readable(m, skip),
        !(m is Array) ==> !TaskbarConfig::readable(m, skip) && !TrayConfig::readable(m, skip) && !ModulesConfig::readable(
            m,
            skip,
        ),
        !(m is Text) ==> !BarPosition::readable(m, skip),
{
}

/// The position is named by its edge, in small letters, and by nothing else.
pub proof fn law_position_is_named_by_its_edge(m: TomlModel, s: Seq<char>, p: BarPosition)
    requires
        m == TomlModel::Text(s),
    ensures
        BarPosition::readable(m, None) <==> s == "left"@ || s == "right"@ || s == "top"@ || s == "bottom"@,
        p.reads(m, None) ==> {
            &&& s == "left"@ <==> p is Left
            &&& s == "right"@ <==> p is Right
            &&& s == "top"@ <==> p is Top
            &&& s == "bottom"@ <==> p is Bottom
        },
{
    reveal_strlit("left");
    reveal_strlit("right");
    reveal_strlit("top");
    reveal_strlit("bottom");
    assert("left"@.len() == 4 && "right"@.len() == 5 && "top"@.len() == 3 && "bottom"@.len() == 6);
}

/// A bar is vertical at the left and right edge, and only there.
pub proof fn law_bar_is_vertical_at_the_sides(p: BarPosition)
    ensures
        p.vertical() <==> p == BarPosition::Left || p == BarPosition::Right,
{
}

/// The entries of a table but for those with a name.
pub open spec fn left_out(o: Seq<(Seq<char>, TomlModel)>, name: Seq<char>) -> Seq<(Seq<char>, TomlModel)> {
    o.filter(|e: (Seq<char>, TomlModel)| e.0 != name)
}

proof fn lemma_lookup_left_out(o: Seq<(Seq<char>, TomlModel)>, name: Seq<char>, k: Seq<char>)
    ensures
        k != name ==> toml_value::field(TomlModel::Table(left_out(o, name)), k, 0, None) == toml_value::field(
            TomlModel::Table(o),
            k,
            0,
            None,
        ),
        toml_value::field(TomlModel::Table(left_out(o, name)), name, 0, None) is None,
    decreases o.len(),
{
    let keep = |e: (Seq<char>, TomlModel)| e.0 != name;
    let t = left_out(o, name);
    reveal(Seq::filter);
    if o.len() > 0 {
        let d = o.drop_last();
        let u = left_out(d, name);
        lemma_lookup_left_out(d, name, k);
        lemma_lookup_push(d, o.last(), k);
        lemma_lookup_push(d, o.last(), name);
        assert(o =~= d.push(o.last()));
        if keep(o.last()) {
            assert(t =~= u.push(o.last()));
            lemma_lookup_push(u, o.last(), k);
            lemma_lookup_push(u, o.last(), name);
        } else {
            assert(t =~= u);
        }
    } else {
        assert(t =~= o);
    }
}

proof fn lemma_lookup_push(o: Seq<(Seq<char>, TomlModel)>, e: (Seq<char>, TomlModel), k: Seq<char>)
    ensures
        toml_value::field(TomlModel::Table(o.push(e)), k, 0, None) == (match toml_value::field(
            TomlModel::Table(o),
            k,
            0,
            None,
        ) {
            Some(v) => Some(v),
            None => if e.0 == k {
                Some(e.1)
            } else {
                None
            },
        }),
{
    let p = o.push(e);
    toml_value::law_table_says_its_first_values(o, k);
    match toml_value::field(TomlModel::Table(o), k, 0, None) {
        Some(v) => {
            let i = choose|i: int|
                0 <= i < o.len() && #[trigger] o[i] == (k, v) && forall|j: int| 0 <= j < i ==> (#[trigger] o[j]).0 != k;
            assert(p[i] == (k, v));
            assert forall|j: int| 0 <= j < i implies (#[trigger] p[j]).0 != k by {
                assert(o[j].0 != k);
            }
            assert(toml_value::says(TomlModel::Table(p), k, 0, Some(v)));
            toml_value::law_field_is_what_is_said(TomlModel::Table(p), k, 0, Some(v));
        },
        None => {
            assert forall|j: int| 0 <= j < o.len() implies (#[trigger] p[j]).0 != k by {
                assert(o[j].0 != k);
            }
            if e.0 == k {
                assert(p[o.len() as int] == (k, e.1));
                assert(toml_value::says(TomlModel::Table(p), k, 0, Some(e.1)));
                toml_value::law_field_is_what_is_said(TomlModel::Table(p), k, 0, Some(e.1));
            } else {
                assert forall|j: int| 0 <= j < p.len() implies (#[trigger] p[j]).0 != k by {
                    if j < o.len() {
                        assert(o[j].0 != k);
                    }
                }
                assert(toml_value::says(TomlModel::Table(p), k, 0, None));
                toml_value::law_field_is_what_is_said(TomlModel::Table(p), k, 0, None);
            }
        },
    }
}

/// Skipping a field of a section is reading the section as if the field did not stand in it.
pub proof fn law_skipped_field_counts_as_missing(o: Seq<(Seq<char>, TomlModel)>, name: Seq<char>, k: Seq<char>)
    ensures
        toml_value::field(TomlModel::Table(o), k, 0, Some(name)) == toml_value::field(
            TomlModel::Table(left_out(o, name)),
            k,
            0,
            None,
        ),
        named(TomlModel::Table(o), k, Some(name)) == named(TomlModel::Table(left_out(o, name)), k, None),
{
    lemma_lookup_left_out(o, name, k);
    toml_value::law_table_says_its_first_values(o, k);
    toml_value::law_field_is_what_is_said(
        TomlModel::Table(o),
        k,
        0,
        toml_value::field(TomlModel::Table(o), k, 0, None),
    );
}

proof fn lemma_repair<T: Section>(m: TomlModel, o: Seq<(Seq<char>, TomlModel)>, i: int, k: int)
    requires
        0 <= i <= k <= o.len(),
        forall|j: int| i <= j < k ==> !T::readable(m, Some((#[trigger] o[j]).0)),
        k < o.len() ==> T::readable(m, Some(o[k].0)),
    ensures
        repair::<T>(m, o, i) == (if k < o.len() {
            Some(o[k].0)
        } else {
            None
        }),
    decreases k - i,
{
    if i < k {
        assert(!T::readable(m, Some(o[i].0)));
        lemma_repair::<T>(m, o, i + 1, k);
    }
}

/// A section that is not in the file has its defaults, and one that can be read is what
/// stands there.
pub proof fn law_good_section_is_what_stands_there<T: Section>(c: T, table: TomlModel, name: Seq<char>, v: Option<TomlModel>)
    requires
        is_section(c, table, name),
        toml_value::says(table, name, 0, v),
        table is Table,
    ensures
        v is None ==> c.is_default() && section_warning::<T>(table, name) is None,
        v matches Some(f) ==> (T::readable(f, None) ==> c.reads(f, None) && section_warning::<T>(table, name) is None),
        v matches Some(f) ==> (!T::readable(f, None) && !(f is Table) ==> c.is_default()),
{
    toml_value::law_field_is_what_is_said(table, name, 0, v);
}

/// A section that cannot be read is read without the first field whose lack mends it, and
/// the warning names that field; where there is none, the section has its defaults.
pub proof fn law_bad_field_costs_itself<T: Section>(
    c: T,
    table: TomlModel,
    name: Seq<char>,
    o: Seq<(Seq<char>, TomlModel)>,
    k: int,
)
    requires
        is_section(c, table, name),
        toml_value::says(table, name, 0, Some(TomlModel::Table(o))),
        table is Table,
        !T::readable(TomlModel::Table(o), None),
        0 <= k <= o.len(),
        forall|j: int| 0 <= j < k ==> !T::readable(TomlModel::Table(o), Some((#[trigger] o[j]).0)),
        k < o.len() ==> T::readable(TomlModel::Table(o), Some(o[k].0)),
    ensures
        k < o.len() ==> c.reads(TomlModel::Table(o), Some(o[k].0)) && section_warning::<T>(table, name) == Some(
            "Invalid ["@ + name + "] field '"@ + o[k].0 + "'; using default for it"@,
        ),
        k == o.len() ==> c.is_default() && section_warning::<T>(table, name) == Some(
            "Invalid ["@ + name + "] section; using defaults for it"@,
        ),
{
    toml_value::law_field_is_what_is_said(table, name, 0, Some(TomlModel::Table(o)));
    lemma_repair::<T>(TomlModel::Table(o), o, 0, k);
}

/// Each section of the configuration stands under its own name in the file. The thickness
/// and the spacing are numbers at the top, with their defaults where no number is.
pub proof fn law_sections_stand_under_their_names(c: AppConfig, table: TomlModel, size: Option<TomlModel>, spacing: Option<TomlModel>)
    requires
        is_config(c, table),
        toml_value::says(table, "size"@, 0, size),
        toml_value::says(table, "spacing"@, 0, spacing),
    ensures
        is_section(c.position, table, "position"@),
        is_section(c.taskbar, table, "taskbar"@),
        is_section(c.tray, table, "tray"@),
        is_section(c.modules, table, "modules"@),
        is_section(c.volume, table, "volume"@),
        is_section(c.bluetooth, table, "bluetooth"@),
        is_section(c.network, table, "network"@),
        is_section(c.memory, table, "memory"@),
        is_section(c.brightness, table, "brightness"@),
        is_section(c.battery, table, "battery"@),
        is_section(c.clock, table, "clock"@),
        is_section(c.spacer, table, "spacer"@),
        size matches Some(TomlModel::Integer(n)) ==> (i32::MIN <= n <= i32::MAX ==> c.size == n),
        !(size is Some && size->0 is Integer) ==> c.size == 50,
        spacing matches Some(TomlModel::Integer(n)) ==> (i32::MIN <= n <= i32::MAX ==> c.spacing == n),
        !(spacing is Some && spacing->0 is Integer) ==> c.spacing == 0,
{
    toml_value::law_field_is_what_is_said(table, "size"@, 0, size);
    toml_value::law_field_is_what_is_said(table, "spacing"@, 0, spacing);
}

/// A number in its range is kept as it is, one outside gets its default, and nothing else
/// changes but thresholds that stand the wrong way round, which change places.
pub proof fn law_checking_changes_what_is_out_of_range(c: AppConfig)
    ensures
        checked(c).size == if 1 <= c.size <= 500 { c.size } else { 50 },
        checked(c).spacing == if 0 <= c.spacing <= 100 { c.spacing } else { 0 },
        checked(c).taskbar.icon_size == if 1 <= c.taskbar.icon_size <= 256 { c.taskbar.icon_size } else { 32 },
        checked(c).taskbar.enabled == c.taskbar.enabled,
        checked(c).taskbar.only_current_workspace == c.taskbar.only_current_workspace,
        checked(c).taskbar.show_tooltips == c.taskbar.show_tooltips,
        checked(c).tray.icon_size == if 1 <= c.tray.icon_size <= 256 { c.tray.icon_size } else { 22 },
        checked(c).tray.spacing == if 0 <= c.tray.spacing <= 100 { c.tray.spacing } else { 4 },
        checked(c).spacer.size == if 0 <= c.spacer.size <= 500 { c.spacer.size } else { 5 },
        checked(c).spacer.click == c.spacer.click,
        c.battery.warning_threshold > c.battery.critical_threshold ==> checked(c).battery == c.battery,
        c.battery.warning_threshold <= c.battery.critical_threshold ==> checked(c).battery.warning_threshold
            == c.battery.critical_threshold && checked(c).battery.critical_threshold == c.battery.warning_threshold,
        checked(c).battery.levels == c.battery.levels,
        checked(c).battery.click == c.battery.click,
        checked(c).position == c.position,
        checked(c).modules == c.modules,
        checked(c).volume == c.volume,
        checked(c).bluetooth == c.bluetooth,
        checked(c).network == c.network,
        checked(c).memory == c.memory,
        checked(c).brightness == c.brightness,
        checked(c).clock == c.clock,
{
}

/// What is fallen back to without a file: a bar of fifty pixels at the left edge, with the
/// usual modules and their usual texts.
pub proof fn law_fallback_is_the_usual_bar(c: AppConfig)
    requires
        is_fallback(c),
    ensures
        c.position is Left,
        c.size == 50,
        c.spacing == 0,
        c.taskbar.enabled && c.taskbar.icon_size == 32 && c.taskbar.only_current_workspace && c.taskbar.show_tooltips,
        c.tray.icon_size == 22 && c.tray.spacing == 4,
        c.modules.start is None && c.modules.end is None,
        text::strs(c.modules.order@) == seq![
            "tray"@,
            "volume"@,
            "bluetooth"@,
            "network"@,
            "memory"@,
            "brightness"@,
            "battery"@,
            "clock"@,
        ],
        c.volume.step == 10 && c.volume.max_volume == 150 && templates_equal(c.volume.levels@, volume_levels()),
        c.volume.levels_headphones is None && c.volume.levels_bluetooth is None && c.volume.levels_hdmi is None,
        c.brightness.step == 10 && templates_equal(c.brightness.levels@, brightness_levels()),
        c.battery.warning_threshold == 30 && c.battery.critical_threshold == 15 && templates_equal(
            c.battery.levels@,
            battery_levels(),
        ),
        templates_equal(c.network.modes@, network_modes()),
        templates_equal(c.bluetooth.modes@, bluetooth_modes()),
        c.clock.format_vertical@ == "%H:%M\n%a\n%b\n%d/%m"@,
        c.clock.format_horizontal@ == "%H:%M %a %b %d/%m"@,
        c.memory.format@ == "\u{f035b}\n%uG"@,
        c.spacer.size == 5,
        c.volume.click.on_click_left is None && c.volume.click.on_click_right is None
            && c.volume.click.on_click_middle is None,
{
    lemma_views(c.volume.levels@, volume_levels());
    lemma_views(c.brightness.levels@, brightness_levels());
    lemma_views(c.battery.levels@, battery_levels());
    lemma_views(c.network.modes@, network_modes());
    lemma_views(c.bluetooth.modes@, bluetooth_modes());
}

/// The usual templates, by the names of their levels and modes.
pub proof fn law_usual_templates()
    ensures
        volume_levels().dom() == set!["0"@, "1"@, "100"@, "muted"@],
        volume_levels()["0"@] == "\u{f026}\n%v%"@,
        volume_levels()["1"@] == "\u{f027}\n%v%"@,
        volume_levels()["100"@] == "\u{f028}\n%v%"@,
        volume_levels()["muted"@] == "\u{f026}\nM"@,
        brightness_levels().dom() == set!["0"@, "33"@, "66"@, "100"@],
        brightness_levels()["0"@] == "\u{f00de}\n%v%"@,
        brightness_levels()["33"@] == "\u{f00df}\n%v%"@,
        brightness_levels()["66"@] == "\u{f00e0}\n%v%"@,
        brightness_levels()["100"@] == "\u{f00e1}\n%v%"@,
        battery_levels().dom() == set!["0"@, "33"@, "66"@, "100"@, "charging"@, "full"@],
        battery_levels()["0"@] == "\u{f244}\n%v%"@,
        battery_levels()["33"@] == "\u{f243}\n%v%"@,
        battery_levels()["66"@] == "\u{f241}\n%v%"@,
        battery_levels()["100"@] == "\u{f240}\n%v%"@,
        battery_levels()["charging"@] == "\u{f0e7}\n%v%"@,
        battery_levels()["full"@] == "\u{f240}\nFull"@,
        network_modes().dom() == set!["wifi"@, "lan"@, "disconnected"@],
        network_modes()["wifi"@] == "\u{f0928}\nWiFi"@,
        network_modes()["lan"@] == "\u{f0200}\nLAN"@,
        network_modes()["disconnected"@] == "\u{f092e}\nOff"@,
        bluetooth_modes().dom() == set!["connected"@, "on"@, "off"@, "loading"@],
        bluetooth_modes()["connected"@] == "\u{f00b1}\nOn"@,
        bluetooth_modes()["on"@] == "\u{f293}\nOn"@,
        bluetooth_modes()["off"@] == "\u{f00b2}\nOff"@,
        bluetooth_modes()["loading"@] == "\u{f00af}\n..."@,
{
    reveal_strlit("0");
    reveal_strlit("1");
    reveal_strlit("100");
    reveal_strlit("muted");
    reveal_strlit("33");
    reveal_strlit("66");
    reveal_strlit("charging");
    reveal_strlit("full");
    reveal_strlit("wifi");
    reveal_strlit("lan");
    reveal_strlit("disconnected");
    reveal_strlit("connected");
    reveal_strlit("on");
    reveal_strlit("off");
    reveal_strlit("loading");
    assert("0"@[0] == '0' && "1"@[0] == '1' && "33"@[0] == '3' && "66"@[0] == '6');
    assert("0"@.len() == 1 && "1"@.len() == 1 && "100"@.len() == 3 && "muted"@.len() == 5);
    assert("33"@.len() == 2 && "66"@.len() == 2 && "charging"@.len() == 8 && "full"@.len() == 4);
    assert("wifi"@.len() == 4 && "lan"@.len() == 3 && "disconnected"@.len() == 12);
    assert("connected"@.len() == 9 && "on"@.len() == 2 && "off"@.len() == 3 && "loading"@.len() == 7);
    assert(volume_levels().dom() =~= set!["0"@, "1"@, "100"@, "muted"@]);
    assert(brightness_levels().dom() =~= set!["0"@, "33"@, "66"@, "100"@]);
    assert(battery_levels().dom() =~= set!["0"@, "33"@, "66"@, "100"@, "charging"@, "full"@]);
    assert(network_modes().dom() =~= set!["wifi"@, "lan"@, "disconnected"@]);
    assert(bluetooth_modes().dom() =~= set!["connected"@, "on"@, "off"@, "loading"@]);
}

/// The modules at the start of the bar unless configured otherwise.
pub proof fn law_bar_starts_with_the_taskbar()
    ensures
        default_start() == seq!["spacer"@, "taskbar"@],
{
}

/// The levels of an output are those of its kind, where there are any: bluetooth comes
/// before headphones, and headphones before HDMI.
pub proof fn law_levels_go_by_the_kind_of_output(c: VolumeConfig, bluetooth: bool, headphones: bool, hdmi: bool)
    ensures
        bluetooth && c.levels_bluetooth is Some ==> c.own_levels(bluetooth, headphones, hdmi) == c.levels_bluetooth,
        headphones && c.levels_headphones is Some && !(bluetooth && c.levels_bluetooth is Some) ==> c.own_levels(
            bluetooth,
            headphones,
            hdmi,
        ) == c.levels_headphones,
        hdmi && c.levels_hdmi is Some && !(bluetooth && c.levels_bluetooth is Some) && !(headphones
            && c.levels_headphones is Some) ==> c.own_levels(bluetooth, headphones, hdmi) == c.levels_hdmi,
        !(bluetooth && c.levels_bluetooth is Some) && !(headphones && c.levels_headphones is Some) && !(hdmi
            && c.levels_hdmi is Some) ==> c.own_levels(bluetooth, headphones, hdmi) is None,
{
}

// ---------------------------------------------------------------------------
// What a value is shown as
// ---------------------------------------------------------------------------

proof fn lemma_digits_are_trimmed(n: nat)
    ensures
        forall|i: int| 0 <= i < text::dec(n).len() ==> '0' <= #[trigger] text::dec(n)[i] <= '9',
        text::dec(n).len() > 0,
    decreases n,
{
    if n >= 10 {
        lemma_digits_are_trimmed(n / 10);
    }
}

/// The name of a level is its threshold in digits, which a percent sign may follow and white
/// space may surround.
pub proof fn law_level_is_named_by_its_threshold(n: nat, a: Seq<char>, b: Seq<char>)
    requires
        n <= u32::MAX,
        forall|i: int| 0 <= i < a.len() ==> text::is_white(#[trigger] a[i]),
        forall|i: int| 0 <= i < b.len() ==> text::is_white(#[trigger] b[i]),
    ensures
        threshold(a + text::dec(n) + b) == Some(n),
        threshold(a + (text::dec(n) + seq!['%']) + b) == Some(n),
{
    let d = text::dec(n);
    let p = d.push('%');
    lemma_digits_are_trimmed(n);
    assert('0' <= d[0] <= '9');
    assert('0' <= d[d.len() - 1] <= '9');
    assert(d + seq!['%'] =~= p);
    text::law_white_space_around_is_taken_off(a, d, b);
    text::law_white_space_around_is_taken_off(a, p, b);
    text::law_marks_at_the_ends_are_taken_off(d, '%');
    text::law_number_is_read_back(n, u32::MAX as nat);
}

/// A special state with a template of its own comes before all levels.
pub proof fn law_special_state_comes_first(
    levels: Map<Seq<char>, String>,
    value: nat,
    state: Seq<char>,
    r: (Seq<char>, Option<u32>),
)
    requires
        is_level(levels, value, Some(state), r),
        levels.dom().contains(state),
    ensures
        r.0 == text::replaced(levels[state]@, "%v"@, text::dec(value)),
        r.1 is None,
{
}

/// Without levels the value is shown in percent.
pub proof fn law_value_is_shown_in_percent_else(
    levels: Map<Seq<char>, String>,
    value: nat,
    special: Option<Seq<char>>,
    r: (Seq<char>, Option<u32>),
)
    requires
        is_level(levels, value, special, r),
        special matches Some(s) ==> !levels.dom().contains(s),
        forall|k: Seq<char>| #[trigger] levels.dom().contains(k) ==> threshold(k) is None,
    ensures
        r.0 == text::dec(value) + "%"@,
        r.1 is None,
{
}

/// A value is shown by a level with the highest threshold that it reaches, with the value in
/// place of its mark; by one with the lowest of all where it reaches none.
pub proof fn law_value_is_shown_by_its_level(
    levels: Map<Seq<char>, String>,
    value: nat,
    special: Option<Seq<char>>,
    r: (Seq<char>, Option<u32>),
    other: Seq<char>,
) -> (k: Seq<char>)
    requires
        is_level(levels, value, special, r),
        special matches Some(s) ==> !levels.dom().contains(s),
        levels.dom().contains(other),
        threshold(other) is Some,
    ensures
        levels.dom().contains(k),
        r.1 is Some && threshold(k) == Some(r.1->0 as nat),
        r.0 == text::replaced(levels[k]@, "%v"@, text::dec(value)),
        threshold(other)->0 <= value ==> threshold(other)->0 <= r.1->0 <= value,
        r.1->0 > value ==> r.1->0 <= threshold(other)->0,
{
    let k = choose|k: Seq<char>|
        {
            &&& #[trigger] levels.dom().contains(k)
            &&& r.1 is Some
            &&& threshold(k) == Some(r.1->0 as nat)
            &&& is_threshold_for(levels, value, r.1->0 as nat)
            &&& r.0 == with_value(levels[k]@, value)
        };
    assert(has_threshold(levels));
    assert(levels.dom().contains(k));
    k
}

/// A mode that has no template is shown by its name. The template of another has each
/// placeholder replaced by what it stands for, one after the other.
pub proof fn law_mode_is_shown_by_its_template(
    modes: Map<Seq<char>, String>,
    mode: Seq<char>,
    p: Seq<(Seq<char>, Seq<char>)>,
    mark: Seq<char>,
    words: Seq<char>,
)
    ensures
        !modes.dom().contains(mode) ==> mode_text(modes, mode, p) == mode,
        modes.dom().contains(mode) ==> mode_text(modes, mode, Seq::empty()) == modes[mode]@,
        modes.dom().contains(mode) ==> mode_text(modes, mode, p.push((mark, words))) == text::replaced(
            mode_text(modes, mode, p),
            mark,
            words,
        ),
{
    assert(p.push((mark, words)).drop_last() =~= p);
}

/// The names that may stand at the top of the file.
pub proof fn law_known_names_are_those_of_the_sections(n: Seq<char>)
    ensures
        known_names().contains(n) <==> n == "position"@ || n == "size"@ || n == "spacing"@ || n == "taskbar"@ || n
            == "tray"@ || n == "modules"@ || n == "volume"@ || n == "bluetooth"@ || n == "network"@ || n == "memory"@ || n
            == "brightness"@ || n == "battery"@ || n == "clock"@ || n == "spacer"@,
{
    let k = known_names();
    assert(k[0] == "position"@ && k[1] == "size"@ && k[2] == "spacing"@ && k[3] == "taskbar"@ && k[4] == "tray"@);
    assert(k[5] == "modules"@ && k[6] == "volume"@ && k[7] == "bluetooth"@ && k[8] == "network"@ && k[9] == "memory"@);
    assert(k[10] == "brightness"@ && k[11] == "battery"@ && k[12] == "clock"@ && k[13] == "spacer"@);
}

/// One warning is told of each name that is not known, in the order of the file.
pub proof fn law_unknown_names_are_warned_of(o: Seq<(Seq<char>, TomlModel)>, e: (Seq<char>, TomlModel))
    ensures
        known_names().contains(e.0) ==> unknown_warnings(o.push(e)) == unknown_warnings(o),
        !known_names().contains(e.0) ==> unknown_warnings(o.push(e)) == unknown_warnings(o).push(
            "Unknown config key '"@ + e.0 + "', ignoring"@,
        ),
        unknown_warnings(Seq::empty()).len() == 0,
{
    let keep = |n: Seq<char>| !known_names().contains(n);
    let say = |n: Seq<char>| unknown_warning(n);
    assert(top_names(o.push(e)) =~= top_names(o).push(e.0));
    top_names(o).lemma_filter_push(e.0, keep);
    let f = top_names(o).filter(keep);
    if keep(e.0) {
        assert(f.push(e.0).map_values(say) =~= f.map_values(say).push(say(e.0)));
    }
    reveal(Seq::filter);
    assert(top_names(Seq::empty()) =~= Seq::empty());
    assert(Seq::<Seq<char>>::empty().filter(keep) =~= Seq::empty());
}

/// One where something is so, and none where it is not.
pub open spec fn one_if(b: bool) -> int {
    if b {
        1
    } else {
        0
    }
}

/// There is one warning for each number out of its range, and one for thresholds that stand
/// the wrong way round.
pub proof fn law_each_bad_number_is_warned_of(c: AppConfig)
    ensures
        !(1 <= c.size <= 500) ==> number_warnings(c).contains(
            "Invalid size "@ + text::signed_dec(c.size as int) + ", using 50"@,
        ),
        !(0 <= c.spacing <= 100) ==> number_warnings(c).contains(
            "Invalid spacing "@ + text::signed_dec(c.spacing as int) + ", using 0"@,
        ),
        !(1 <= c.taskbar.icon_size <= 256) ==> number_warnings(c).contains("Invalid taskbar.icon_size, using 32"@),
        !(1 <= c.tray.icon_size <= 256) ==> number_warnings(c).contains("Invalid tray.icon_size, using 22"@),
        !(0 <= c.tray.spacing <= 100) ==> number_warnings(c).contains("Invalid tray.spacing, using 4"@),
        !(0 <= c.spacer.size <= 500) ==> number_warnings(c).contains("Invalid spacer.size, using 5"@),
        c.battery.warning_threshold <= c.battery.critical_threshold ==> number_warnings(c).contains(
            "battery.warning_threshold ("@ + text::dec(c.battery.warning_threshold as nat) + ") must exceed critical ("@
                + text::dec(c.battery.critical_threshold as nat) + "); swapping"@,
        ),
        number_warnings(c).len() == one_if(!(1 <= c.size <= 500)) + one_if(!(0 <= c.spacing <= 100)) + one_if(
            !(1 <= c.taskbar.icon_size <= 256),
        ) + one_if(!(1 <= c.tray.icon_size <= 256)) + one_if(!(0 <= c.tray.spacing <= 100)) + one_if(
            !(0 <= c.spacer.size <= 500),
        ) + one_if(c.battery.warning_threshold <= c.battery.critical_threshold),
{
    let a = noted(range_warning(c.size, 1, 500, "Invalid size "@ + text::signed_dec(c.size as int) + ", using 50"@));
    let b = noted(
        range_warning(c.spacing, 0, 100, "Invalid spacing "@ + text::signed_dec(c.spacing as int) + ", using 0"@),
    );
    let d = noted(range_warning(c.taskbar.icon_size, 1, 256, "Invalid taskbar.icon_size, using 32"@));
    let e = noted(range_warning(c.tray.icon_size, 1, 256, "Invalid tray.icon_size, using 22"@));
    let f = noted(range_warning(c.tray.spacing, 0, 100, "Invalid tray.spacing, using 4"@));
    let g = noted(range_warning(c.spacer.size, 0, 500, "Invalid spacer.size, using 5"@));
    let all = number_warnings(c);
    if a.len() > 0 {
        assert(all[0] == a[0]);
    }
    if b.len() > 0 {
        assert(all[a.len() as int] == b[0]);
    }
    if d.len() > 0 {
        assert(all[(a + b).len() as int] == d[0]);
    }
    if e.len() > 0 {
        assert(all[(a + b + d).len() as int] == e[0]);
    }
    if f.len() > 0 {
        assert(all[(a + b + d + e).len() as int] == f[0]);
    }
    if g.len() > 0 {
        assert(all[(a + b + d + e + f).len() as int] == g[0]);
    }
    if c.battery.warning_threshold <= c.battery.critical_threshold {
        let h = "battery.warning_threshold ("@ + text::dec(c.battery.warning_threshold as nat) + ") must exceed critical ("@
            + text::dec(c.battery.critical_threshold as nat) + "); swapping"@;
        assert(all[(a + b + d + e + f + g).len() as int] == h);
    }
}

/// The directory of the configuration is named after the bar, and lies where the environment
/// says: in the configuration home, else in the home directory.
pub proof fn law_directory_lies_where_the_environment_says(xdg: Option<Seq<char>>, home: Option<Seq<char>>)
    ensures
        xdg matches Some(x) ==> ((exists|i: int| 0 <= i < x.len() && !text::is_white(#[trigger] x[i])) ==> config_dir(
            xdg,
            home,
        ) == paths::joined(x, "niri-bar"@)),
        (xdg matches Some(x) ==> forall|i: int| 0 <= i < x.len() ==> text::is_white(#[trigger] x[i])) ==> {
            &&& home matches Some(h) ==> ((exists|i: int| 0 <= i < h.len() && !text::is_white(#[trigger] h[i]))
                ==> config_dir(xdg, home) == paths::joined(paths::joined(h, ".config"@), "niri-bar"@))
            &&& (home matches Some(h) ==> forall|i: int| 0 <= i < h.len() ==> text::is_white(#[trigger] h[i]))
                ==> config_dir(xdg, home) == ".config/niri-bar"@
        },
{
}

/// The words for a file that cannot be read or parsed tell where and why.
pub proof fn law_errors_tell_where_and_why(path: Seq<char>, e: Seq<char>)
    ensures
        read_error(path, e) == "Failed to read "@ + path + ": "@ + e,
        syntax_error(e) == "Syntax error in config.toml: "@ + e,
{
}

/// Each section that cannot be read as it stands is warned of by its own name, and so is
/// each number at the top that is none; and nothing else but names that are not known.
pub proof fn law_each_bad_section_is_warned_of(table: TomlModel)
    requires
        table is Table,
    ensures
        section_warning::<BarPosition>(table, "position"@) matches Some(w) ==> table_warnings(table).contains(w),
        section_warning::<TaskbarConfig>(table, "taskbar"@) matches Some(w) ==> table_warnings(table).contains(w),
        section_warning::<TrayConfig>(table, "tray"@) matches Some(w) ==> table_warnings(table).contains(w),
        section_warning::<ModulesConfig>(table, "modules"@) matches Some(w) ==> table_warnings(table).contains(w),
        section_warning::<VolumeConfig>(table, "volume"@) matches Some(w) ==> table_warnings(table).contains(w),
        section_warning::<BluetoothConfig>(table, "bluetooth"@) matches Some(w) ==> table_warnings(table).contains(w),
        section_warning::<NetworkConfig>(table, "network"@) matches Some(w) ==> table_warnings(table).contains(w),
        section_warning::<MemoryConfig>(table, "memory"@) matches Some(w) ==> table_warnings(table).contains(w),
        section_warning::<BrightnessConfig>(table, "brightness"@) matches Some(w) ==> table_warnings(table).contains(w),
        section_warning::<BatteryConfig>(table, "battery"@) matches Some(w) ==> table_warnings(table).contains(w),
        section_warning::<ClockConfig>(table, "clock"@) matches Some(w) ==> table_warnings(table).contains(w),
        section_warning::<SpacerConfig>(table, "spacer"@) matches Some(w) ==> table_warnings(table).contains(w),
        no_number(table, "size"@) ==> table_warnings(table).contains("Invalid `size`, using 50"@),
        no_number(table, "spacing"@) ==> table_warnings(table).contains("Invalid `spacing`, using 0"@),
        table_warnings(table).len() == unknown_warnings(table->Table_0).len()
            + one_if(section_warning::<BarPosition>(table, "position"@) is Some)
            + one_if(section_warning::<TaskbarConfig>(table, "taskbar"@) is Some)
            + one_if(section_warning::<TrayConfig>(table, "tray"@) is Some)
            + one_if(section_warning::<ModulesConfig>(table, "modules"@) is Some)
            + one_if(section_warning::<VolumeConfig>(table, "volume"@) is Some)
            + one_if(section_warning::<BluetoothConfig>(table, "bluetooth"@) is Some)
            + one_if(section_warning::<NetworkConfig>(table, "network"@) is Some)
            + one_if(section_warning::<MemoryConfig>(table, "memory"@) is Some)
            + one_if(section_warning::<BrightnessConfig>(table, "brightness"@) is Some)
            + one_if(section_warning::<BatteryConfig>(table, "battery"@) is Some)
            + one_if(section_warning::<ClockConfig>(table, "clock"@) is Some)
            + one_if(section_warning::<SpacerConfig>(table, "spacer"@) is Some)
            + one_if(no_number(table, "size"@)) + one_if(no_number(table, "spacing"@)),
{
    let p0 = unknown_warnings(table->Table_0);
    let w0 = section_warning::<BarPosition>(table, "position"@);
    let p1 = p0 + noted(w0);
    lemma_noted(p0, w0);
    let w1 = section_warning::<TaskbarConfig>(table, "taskbar"@);
    let p2 = p1 + noted(w1);
    lemma_noted(p1, w1);
    let w2 = section_warning::<TrayConfig>(table, "tray"@);
    let p3 = p2 + noted(w2);
    lemma_noted(p2, w2);
    let w3 = section_warning::<ModulesConfig>(table, "modules"@);
    let p4 = p3 + noted(w3);
    lemma_noted(p3, w3);
    let w4 = section_warning::<VolumeConfig>(table, "volume"@);
    let p5 = p4 + noted(w4);
    lemma_noted(p4, w4);
    let w5 = section_warning::<BluetoothConfig>(table, "bluetooth"@);
    let p6 = p5 + noted(w5);
    lemma_noted(p5, w5);
    let w6 = section_warning::<NetworkConfig>(table, "network"@);
    let p7 = p6 + noted(w6);
    lemma_noted(p6, w6);
    let w7 = section_warning::<MemoryConfig>(table, "memory"@);
    let p8 = p7 + noted(w7);
    lemma_noted(p7, w7);
    let w8 = section_warning::<BrightnessConfig>(table, "brightness"@);
    let p9 = p8 + noted(w8);
    lemma_noted(p8, w8);
    let w9 = section_warning::<BatteryConfig>(table, "battery"@);
    let p10 = p9 + noted(w9);
    lemma_noted(p9, w9);
    let w10 = section_warning::<ClockConfig>(table, "clock"@);
    let p11 = p10 + noted(w10);
    lemma_noted(p10, w10);
    let w11 = section_warning::<SpacerConfig>(table, "spacer"@);
    let p12 = p11 + noted(w11);
    lemma_noted(p11, w11);
    let w12 = if no_number(table, "size"@) {
        Some("Invalid `size`, using 50"@)
    } else {
        None
    };
    let p13 = p12 + noted(w12);
    lemma_noted(p12, w12);
    let w13 = if no_number(table, "spacing"@) {
        Some("Invalid `spacing`, using 0"@)
    } else {
        None
    };
    let p14 = p13 + noted(w13);
    lemma_noted(p13, w13);
    assert(table_warnings(table) == p14);
}

proof fn lemma_noted(p: Seq<Seq<char>>, w: Option<Seq<char>>)
    ensures
        (p + noted(w)).len() == p.len() + one_if(w is Some),
        w is Some ==> (p + noted(w)).contains(w->0),
        forall|x: Seq<char>| #[trigger] p.contains(x) ==> (p + noted(w)).contains(x),
{
    let q = p + noted(w);
    if let Some(s) = w {
        assert(q[p.len() as int] == s);
    }
    assert forall|x: Seq<char>| #[trigger] p.contains(x) implies q.contains(x) by {
        let i = choose|i: int| 0 <= i < p.len() && p[i] == x;
        assert(q[i] == x);
    }
}

/// A number at the top is none where something else than a whole number stands there.
pub proof fn law_number_at_the_top_is_whole(table: TomlModel, name: Seq<char>, v: Option<TomlModel>)
    requires
        toml_value::says(table, name, 0, v),
    ensures
        no_number(table, name) <==> v is Some && !(v->0 is Integer),
{
    toml_value::law_field_is_what_is_said(table, name, 0, v);
}

/// What a file gives is in range; a number of the file in its range is kept, and the other
/// sections are those of the file.
pub proof fn law_file_gives_what_it_says_in_range(
    c: AppConfig,
    table: TomlModel,
    size: Option<TomlModel>,
    spacing: Option<TomlModel>,
)
    requires
        is_checked_config(c, table),
        toml_value::says(table, "size"@, 0, size),
        toml_value::says(table, "spacing"@, 0, spacing),
    ensures
        size matches Some(TomlModel::Integer(n)) ==> (1 <= n <= 500 ==> c.size == n),
        !(size is Some && size->0 is Integer) ==> c.size == 50,
        spacing matches Some(TomlModel::Integer(n)) ==> (0 <= n <= 100 ==> c.spacing == n),
        !(spacing is Some && spacing->0 is Integer) ==> c.spacing == 0,
        1 <= c.size <= 500,
        0 <= c.spacing <= 100,
        1 <= c.taskbar.icon_size <= 256,
        1 <= c.tray.icon_size <= 256,
        0 <= c.tray.spacing <= 100,
        0 <= c.spacer.size <= 500,
        c.battery.warning_threshold >= c.battery.critical_threshold,
        is_section(c.position, table, "position"@),
        is_section(c.modules, table, "modules"@),
        is_section(c.volume, table, "volume"@),
        is_section(c.bluetooth, table, "bluetooth"@),
        is_section(c.network, table, "network"@),
        is_section(c.memory, table, "memory"@),
        is_section(c.brightness, table, "brightness"@),
        is_section(c.clock, table, "clock"@),
{
    let raw = choose|raw: AppConfig| #[trigger] is_config(raw, table) && c == checked(raw);
    law_sections_stand_under_their_names(raw, table, size, spacing);
    law_checking_changes_what_is_out_of_range(raw);
    law_checked_is_in_range(raw);
}

/// The warnings of a file begin with those of its table.
pub proof fn law_warnings_begin_with_those_of_the_table(w: Seq<Seq<char>>, table: TomlModel)
    ensures
        are_config_warnings(w, table) || are_file_warnings(w, table) ==> table_warnings(table).is_prefix_of(w),
{
    if are_config_warnings(w, table) {
        let raw = choose|raw: AppConfig| #[trigger]
            is_config(raw, table) && w == table_warnings(table) + number_warnings(raw);
        assert(w.take(table_warnings(table).len() as int) =~= table_warnings(table));
    }
    if are_file_warnings(w, table) {
        let raw = choose|raw: AppConfig| #[trigger]
            is_config(raw, table) && w == table_warnings(table) + number_warnings(raw) + number_warnings(
                checked(raw),
            );
        assert(w.take(table_warnings(table).len() as int) =~= table_warnings(table));
    }
}

/// A file is warned of for each of its numbers that is out of range, and for none that is in
/// range.
pub proof fn law_file_is_warned_of_for_its_numbers(
    w: Seq<Seq<char>>,
    table: TomlModel,
    size: Option<TomlModel>,
    spacing: Option<TomlModel>,
    n: i64,
)
    requires
        are_config_warnings(w, table) || are_file_warnings(w, table),
        toml_value::says(table, "size"@, 0, size),
        toml_value::says(table, "spacing"@, 0, spacing),
        i32::MIN <= n <= i32::MAX,
    ensures
        size == Some(TomlModel::Integer(n)) && !(1 <= n <= 500) ==> w.contains(
            "Invalid size "@ + text::signed_dec(n as int) + ", using 50"@,
        ),
        spacing == Some(TomlModel::Integer(n)) && !(0 <= n <= 100) ==> w.contains(
            "Invalid spacing "@ + text::signed_dec(n as int) + ", using 0"@,
        ),
{
    let raw = if are_config_warnings(w, table) {
        choose|raw: AppConfig| #[trigger]
            is_config(raw, table) && w == table_warnings(table) + number_warnings(raw)
    } else {
        choose|raw: AppConfig| #[trigger]
            is_config(raw, table) && w == table_warnings(table) + number_warnings(raw) + number_warnings(
                checked(raw),
            )
    };
    law_sections_stand_under_their_names(raw, table, size, spacing);
    law_each_bad_number_is_warned_of(raw);
    let t = table_warnings(table);
    assert forall|x: Seq<char>| number_warnings(raw).contains(x) implies #[trigger] w.contains(x) by {
        let k = choose|k: int| 0 <= k < number_warnings(raw).len() && number_warnings(raw)[k] == x;
        assert(w[t.len() + k] == x);
    }
}

/// Placeholders stand for their words one by one.
pub proof fn law_placeholders_are_pairs(p: Seq<(&str, &str)>, i: int)
    requires
        0 <= i < p.len(),
    ensures
        pairs(p).len() == p.len(),
        pairs(p)[i].0 == p[i].0@,
        pairs(p)[i].1 == p[i].1@,
{
}

} // verus!
