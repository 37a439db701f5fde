//! The battery: how it is read, and what is shown of it.
use vstd::prelude::*;

use crate::config;
use crate::config::{resolve_level, BatteryConfig};
use crate::modules;
use crate::modules::{push_class, push_level, BarModule, Commands, ModuleState, Orientation, StateModel};
use crate::text;

verus! {

// ---------------------------------------------------------------------------
// Readings
// ---------------------------------------------------------------------------

/// The charge in percent, and the words of the state.
pub type Reading = (u8, String);

/// What a reading says.
pub open spec fn reading_view(r: Option<Reading>) -> Option<(u8, Seq<char>)> {
    match r {
        Some((c, s)) => Some((c, s@)),
        None => None,
    }
}

/// A power supply as the system lists it. What cannot be read of it is missing.
#[derive(Debug, Clone)]
pub struct PowerSupply {
    pub name: String,
    pub capacity: Option<String>,
    pub status: Option<String>,
}

/// The supply is a battery.
pub open spec fn is_battery(s: PowerSupply) -> bool {
    text::begins(s.name@, "BAT"@)
}

/// The charge of a supply.
pub open spec fn charge(s: PowerSupply) -> Option<nat> {
    match s.capacity {
        Some(c) => text::parsed(text::trimmed(c@), 10, 255),
        None => None,
    }
}

/// The words of the state of a supply.
pub open spec fn status_words(s: PowerSupply) -> Seq<char> {
    match s.status {
        Some(t) => text::trimmed(t@),
        None => text::trimmed("Discharging"@),
    }
}

/// The first battery whose charge can be read.
pub open spec fn first_charge(v: Seq<PowerSupply>) -> Option<(u8, Seq<char>)>
    decreases v.len(),
{
    if v.len() == 0 {
        None
    } else if is_battery(v[0]) && charge(v[0]) is Some {
        Some((charge(v[0])->0 as u8, status_words(v[0])))
    } else {
        first_charge(v.drop_first())
    }
}

/// Some supply is a battery.
pub open spec fn any_battery(v: Seq<PowerSupply>) -> bool {
    exists|i: int| 0 <= i < v.len() && is_battery(#[trigger] v[i])
}

fn read_charge(s: &PowerSupply) -> (r: Option<u8>)
    ensures
        match r {
            Some(c) => charge(*s) == Some(c as nat),
            None => charge(*s) is None,
        },
{
    match &s.capacity {
        Some(c) => match text::parse_number(text::trim(c.as_str()).as_str(), 10, 255) {
            Some(n) => Some(n as u8),
            None => None,
        },
        None => None,
    }
}

fn read_status(s: &PowerSupply) -> (r: String)
    ensures
        r@ == status_words(*s),
{
    match &s.status {
        Some(t) => text::trim(t.as_str()),
        None => text::trim("Discharging"),
    }
}

/// Reads the supplies that the system lists: the first battery whose charge can be
/// read, and whether there is a battery at all.
pub fn read_battery_sysfs(supplies: &Vec<PowerSupply>) -> (r: (Option<Reading>, bool))
    ensures
        reading_view(r.0) == first_charge(supplies@),
        r.1 == any_battery(supplies@),
{
    let mut present: bool = false;
    let mut i: usize = 0;
    assert(supplies@.skip(0) =~= supplies@);
    while i < supplies.len()
        invariant
            i <= supplies@.len(),
            first_charge(supplies@.skip(i as int)) == first_charge(supplies@),
            present == exists|k: int| 0 <= k < i && is_battery(#[trigger] supplies@[k]),
        decreases supplies@.len() - i,
    {
        assert(supplies@.skip(i as int)[0] == supplies@[i as int]);
        assert(supplies@.skip(i as int).drop_first() =~= supplies@.skip(i + 1));
        let s: &PowerSupply = &supplies[i];
        if text::starts_with(s.name.as_str(), "BAT") {
            present = true;
            assert(is_battery(supplies@[i as int]));
            if let Some(c) = read_charge(s) {
                assert(any_battery(supplies@));
                return (Some((c, read_status(s))), true);
            }
        }
        i = i + 1;
    }
    (None, present)
}

/// The reading of the battery, and whether its sources work: those that the power
/// service gives come first; without it, the supplies that the system lists. A machine
/// without a battery works, one whose battery cannot be read does not.
pub fn read_battery_full(upower: Option<Reading>, supplies: &Vec<PowerSupply>) -> (r: (
    Option<Reading>,
    bool,
))
    ensures
        upower is Some ==> r.0 == upower && r.1,
        upower is None ==> {
            &&& reading_view(r.0) == first_charge(supplies@)
            &&& r.1 == (!any_battery(supplies@) || first_charge(supplies@) is Some)
        },
{
    match upower {
        Some(u) => (Some(u), true),
        None => {
            let (reading, present) = read_battery_sysfs(supplies);
            proof {
                if !present {
                    lemma_no_battery(supplies@);
                }
            }
            let healthy: bool = !present || reading.is_some();
            (reading, healthy)
        },
    }
}

proof fn lemma_no_battery(v: Seq<PowerSupply>)
    requires
        !any_battery(v),
    ensures
        first_charge(v) is None,
    decreases v.len(),
{
    if v.len() > 0 {
        assert(!is_battery(v[0]));
        assert forall|i: int| 0 <= i < v.drop_first().len() implies !is_battery(
            #[trigger] v.drop_first()[i],
        ) by {
            assert(v.drop_first()[i] == v[i + 1]);
        }
        lemma_no_battery(v.drop_first());
    }
}

/// The words of a state that the power service numbers.
pub open spec fn upower_words(state: u32) -> Seq<char> {
    if state == 1 || state == 5 {
        "Charging"@
    } else if state == 2 || state == 6 {
        "Discharging"@
    } else if state == 3 {
        "Empty"@
    } else if state == 4 {
        "Full"@
    } else {
        "Unknown"@
    }
}

// ---------------------------------------------------------------------------
// What is shown
// ---------------------------------------------------------------------------

/// The battery is plugged in: it says so, or says nothing of it while some supply is
/// online.
pub open spec fn plugged(status: Seq<char>, online: bool) -> bool {
    if text::same_but_case(status, "Charging"@) || text::same_but_case(status, "Full"@)
        || text::same_but_case(status, "Not charging"@) {
        true
    } else if text::same_but_case(status, "Discharging"@) {
        false
    } else {
        online
    }
}

/// Whether some supply is online, by what each says.
pub fn any_online(values: &Vec<String>) -> (r: bool)
    ensures
        r == exists|i: int| 0 <= i < values@.len() && text::trimmed((#[trigger] values@[i])@) == "1"@,
{
    let mut i: usize = 0;
    while i < values.len()
        invariant
            i <= values@.len(),
            forall|k: int| 0 <= k < i ==> text::trimmed((#[trigger] values@[k])@) != "1"@,
        decreases values@.len() - i,
    {
        if text::same(text::trim(values[i].as_str()).as_str(), "1") {
            return true;
        }
        i = i + 1;
    }
    false
}

/// The battery is full.
pub open spec fn is_full(cap: u8, status: Seq<char>, online: bool) -> bool {
    text::same_but_case(status, "Full"@) || (plugged(status, online) && cap >= 100)
}

/// The template for a battery that is full or plugged in.
pub open spec fn special_level(config: BatteryConfig, cap: u8, status: Seq<char>, online: bool) -> Option<
    Seq<char>,
> {
    if is_full(cap, status, online) && config.levels@.dom().contains("full"@) {
        Some("full"@)
    } else if plugged(status, online) {
        Some("charging"@)
    } else {
        None
    }
}

/// The classes of a battery: full, charging, and how low it is where it is not plugged
/// in.
pub open spec fn battery_classes(
    config: BatteryConfig,
    cap: u8,
    status: Seq<char>,
    online: bool,
) -> Seq<Seq<char>> {
    if is_full(cap, status, online) && config.levels@.dom().contains("full"@) {
        if plugged(status, online) {
            seq!["full"@, "charging"@]
        } else {
            seq!["full"@]
        }
    } else if plugged(status, online) {
        seq!["charging"@]
    } else if cap <= config.critical_threshold {
        seq!["critical"@]
    } else if cap <= config.warning_threshold {
        seq!["warning"@]
    } else {
        Seq::empty()
    }
}

/// What is shown of a battery.
pub open spec fn shows_battery(
    config: BatteryConfig,
    cap: u8,
    status: Seq<char>,
    online: bool,
    m: StateModel,
) -> bool {
    m.text is Some && exists|t: Option<u32>|
        {
            &&& #[trigger] config::is_level(
                config.levels@,
                cap as nat,
                special_level(config, cap, status, online),
                (m.text->0, t),
            )
            &&& m.icon is None
            &&& m.tooltip == Some(
                if plugged(status, online) {
                    "Plugged"@
                } else {
                    "Unplugged"@
                },
            )
            &&& m.classes == battery_classes(config, cap, status, online) + modules::level_classes(t)
        }
}

/// What is shown without a battery.
pub open spec fn shows_no_battery() -> StateModel {
    StateModel { icon: None, text: None, tooltip: Some("No battery"@), classes: seq!["no-battery"@] }
}

fn is_plugged_in(status: &str, online: bool) -> (r: bool)
    ensures
        r == plugged(status@, online),
{
    if text::eq_ignore_ascii_case(status, "Charging") || text::eq_ignore_ascii_case(status, "Full")
        || text::eq_ignore_ascii_case(status, "Not charging") {
        true
    } else if text::eq_ignore_ascii_case(status, "Discharging") {
        false
    } else {
        online
    }
}

/// The battery.
#[derive(Debug, Clone)]
pub struct BatteryModule {
    pub config: BatteryConfig,
    /// The last reading.
    pub last: Option<Reading>,
}

impl BatteryModule {
    /// A battery with a configuration and a first reading.
    pub fn new(config: BatteryConfig, initial: Option<Reading>) -> (r: Self)
        ensures
            r.config == config,
            r.last == initial,
    {
        BatteryModule { config, last: initial }
    }

    /// The words of a state that the power service numbers.
    pub fn parse_upower_state(state: u32) -> (r: &'static str)
        ensures
            r@ == upower_words(state),
    {
        if state == 1 || state == 5 {
            "Charging"
        } else if state == 2 || state == 6 {
            "Discharging"
        } else if state == 3 {
            "Empty"
        } else if state == 4 {
            "Full"
        } else {
            "Unknown"
        }
    }

    /// Takes note of a reading. Says whether it is another one than the last.
    pub fn record(&mut self, reading: Option<Reading>) -> (changed: bool)
        ensures
            changed == (reading_view(reading) != reading_view(old(self).last)),
            reading_view(final(self).last) == reading_view(reading),
            final(self).config == old(self).config,
    {
        let same: bool = match (&self.last, &reading) {
            (Some(a), Some(b)) => a.0 == b.0 && text::same(a.1.as_str(), b.1.as_str()),
            (None, None) => true,
            _ => false,
        };
        if !same {
            self.last = reading;
        }
        !same
    }

    /// What is shown of a battery with a charge and a state. `online` says that some
    /// supply is online.
    pub fn format_state_static(
        config: &BatteryConfig,
        cap: u8,
        status: &str,
        online: bool,
        _orientation: Orientation,
    ) -> (r: ModuleState)
        ensures
            shows_battery(*config, cap, status@, online, r.model()),
    {
        let plugged_in: bool = is_plugged_in(status, online);
        let full: bool = text::eq_ignore_ascii_case(status, "Full") || (plugged_in && cap >= 100);
        let mut css_classes: Vec<String> = Vec::new();
        assert(text::strs(css_classes@) =~= Seq::empty());
        let special: Option<&str> = if full && config.levels.contains_key("full") {
            push_class(&mut css_classes, "full");
            if plugged_in {
                push_class(&mut css_classes, "charging");
            }
            Some("full")
        } else if plugged_in {
            push_class(&mut css_classes, "charging");
            Some("charging")
        } else {
            if cap <= config.critical_threshold {
                push_class(&mut css_classes, "critical");
            } else if cap <= config.warning_threshold {
                push_class(&mut css_classes, "warning");
            }
            None
        };
        assert(text::strs(css_classes@) =~= battery_classes(*config, cap, status@, online));
        assert(text::opt_str(special) == special_level(*config, cap, status@, online));
        let (formatted, threshold) = resolve_level(&config.levels, cap as u32, special);
        push_level(&mut css_classes, threshold);
        let tooltip: String = if plugged_in {
            "Plugged".to_owned()
        } else {
            "Unplugged".to_owned()
        };
        let r: ModuleState = ModuleState {
            icon: None,
            text: Some(formatted),
            tooltip: Some(tooltip),
            css_classes,
        };
        assert(config::is_level(
            config.levels@,
            cap as nat,
            special_level(*config, cap, status@, online),
            (r.model().text->0, threshold),
        ));
        r
    }

    /// What is shown without a battery.
    pub fn no_battery_state() -> (r: ModuleState)
        ensures
            r.model() == shows_no_battery(),
    {
        let mut css_classes: Vec<String> = Vec::new();
        css_classes.push("no-battery".to_owned());
        let r: ModuleState = ModuleState {
            icon: None,
            text: None,
            tooltip: Some("No battery".to_owned()),
            css_classes,
        };
        assert(r.model().classes =~= seq!["no-battery"@]);
        r
    }

    /// What is shown now.
    pub fn current_state(&self, online: bool, orientation: Orientation) -> (r: ModuleState)
        ensures
            match self.last {
                Some((cap, status)) => shows_battery(self.config, cap, status@, online, r.model()),
                None => r.model() == shows_no_battery(),
            },
    {
        match &self.last {
            Some(reading) => BatteryModule::format_state_static(
                &self.config,
                reading.0,
                reading.1.as_str(),
                online,
                orientation,
            ),
            None => BatteryModule::no_battery_state(),
        }
    }
}

impl BarModule for BatteryModule {
    open spec fn commands(&self) -> Commands {
        modules::commands_of(self.config.click)
    }

    open spec fn acts_by_itself(&self) -> bool {
        false
    }

    open spec fn title(&self) -> Seq<char> {
        "battery"@
    }

    fn name(&self) -> (r: &'static str) {
        "battery"
    }

    fn click_commands(&self) -> (r: (Option<&str>, Option<&str>, Option<&str>)) {
        self.config.click.commands()
    }

    fn has_default_action(&self) -> (r: bool) {
        false
    }
}

// ---------------------------------------------------------------------------
// What is known and shown of a battery
// ---------------------------------------------------------------------------

proof fn lemma_first_charge(v: Seq<PowerSupply>, i: int)
    requires
        0 <= i < v.len(),
        is_battery(v[i]),
        charge(v[i]) is Some,
        forall|j: int| 0 <= j < i ==> !(is_battery(#[trigger] v[j]) && charge(v[j]) is Some),
    ensures
        first_charge(v) == Some((charge(v[i])->0 as u8, status_words(v[i]))),
    decreases v.len(),
{
    if i > 0 {
        assert(!(is_battery(v[0]) && charge(v[0]) is Some));
        let d = v.drop_first();
        assert forall|j: int| 0 <= j < i - 1 implies !(is_battery(#[trigger] d[j]) && charge(d[j]) is Some) by {
            assert(d[j] == v[j + 1]);
        }
        assert(d[i - 1] == v[i]);
        lemma_first_charge(d, i - 1);
    }
}

/// The reading is that of the first supply whose name begins with `BAT` and whose charge is a
/// number: its charge, and its state, which is discharging where it says none.
pub proof fn law_first_battery_is_read(v: Seq<PowerSupply>, r: Option<Reading>, i: int, rest: Seq<char>, n: nat)
    requires
        reading_view(r) == first_charge(v),
        0 <= i < v.len(),
        v[i].name@ == "BAT"@ + rest,
        v[i].capacity matches Some(c) && text::trimmed(c@) == text::dec(n),
        n <= 255,
        forall|j: int| 0 <= j < i ==> !(is_battery(#[trigger] v[j]) && charge(v[j]) is Some),
    ensures
        r matches Some((charge, words)) && charge == n && (v[i].status matches Some(s) ==> words@ == text::trimmed(s@))
            && (v[i].status is None ==> words@ == "Discharging"@),
{
    text::law_occurrence_is_between_front_and_rest(Seq::empty(), "BAT"@, rest);
    text::law_number_is_read_back(n, 255);
    lemma_first_charge(v, i);
    reveal_strlit("Discharging");
    let d = "Discharging"@;
    let none = Seq::<char>::empty();
    assert(none + d + none =~= d);
    text::law_white_space_around_is_taken_off(none, d, none);
}

/// A supply is a battery if and only if its name begins with `BAT`.
pub proof fn law_battery_is_told_by_its_name(s: PowerSupply)
    ensures
        is_battery(s) <==> exists|rest: Seq<char>| s.name@ == #[trigger] ("BAT"@ + rest),
{
    if is_battery(s) {
        text::law_text_is_made_of_what_it_holds(s.name@, "BAT"@, 0);
    }
    if exists|rest: Seq<char>| s.name@ == #[trigger] ("BAT"@ + rest) {
        let rest = choose|rest: Seq<char>| s.name@ == #[trigger] ("BAT"@ + rest);
        text::law_occurrence_is_between_front_and_rest(Seq::empty(), "BAT"@, rest);
    }
}

/// The numbers of the power service for the states of a battery.
pub proof fn law_states_have_their_words(state: u32)
    ensures
        state == 1 || state == 5 ==> upower_words(state) == "Charging"@,
        state == 2 || state == 6 ==> upower_words(state) == "Discharging"@,
        state == 3 ==> upower_words(state) == "Empty"@,
        state == 4 ==> upower_words(state) == "Full"@,
        state == 0 || state > 6 ==> upower_words(state) == "Unknown"@,
{
}

/// A battery that charges, is full or does not charge is plugged in, one that discharges is
/// not, whatever the supplies say; of another they decide. Case does not count.
pub proof fn law_plugged_goes_by_the_state(status: Seq<char>, online: bool)
    ensures
        text::same_but_case(status, "Charging"@) || text::same_but_case(status, "Full"@) || text::same_but_case(
            status,
            "Not charging"@,
        ) ==> plugged(status, online),
        text::same_but_case(status, "Discharging"@) ==> !plugged(status, online),
        !text::same_but_case(status, "Charging"@) && !text::same_but_case(status, "Full"@) && !text::same_but_case(
            status,
            "Not charging"@,
        ) && !text::same_but_case(status, "Discharging"@) ==> plugged(status, online) == online,
{
    reveal_strlit("Charging");
    reveal_strlit("Full");
    reveal_strlit("Not charging");
    reveal_strlit("Discharging");
    assert("Charging"@.len() == 8 && "Full"@.len() == 4 && "Not charging"@.len() == 12 && "Discharging"@.len() == 11);
}

/// The tooltip tells whether the battery is plugged in.
pub proof fn law_tooltip_tells_whether_it_is_plugged(
    config: BatteryConfig,
    cap: u8,
    status: Seq<char>,
    online: bool,
    r: ModuleState,
)
    requires
        shows_battery(config, cap, status, online, r.model()),
    ensures
        plugged(status, online) ==> r.tooltip is Some && r.tooltip->0@ == "Plugged"@,
        !plugged(status, online) ==> r.tooltip is Some && r.tooltip->0@ == "Unplugged"@,
        r.icon is None,
        r.text is Some,
{
}

/// A battery that runs on its own is critical up to its lower threshold and warns up to the
/// higher one; above it has no class but that of its level. Its text is that of its charge.
pub proof fn law_low_battery_warns(
    config: BatteryConfig,
    cap: u8,
    status: Seq<char>,
    online: bool,
    r: ModuleState,
) -> (t: Option<u32>)
    requires
        shows_battery(config, cap, status, online, r.model()),
        !plugged(status, online),
    ensures
        r.text is Some,
        config::is_level(config.levels@, cap as nat, None, (r.text->0@, t)),
        cap <= config.critical_threshold ==> text::strs(r.css_classes@) == seq!["critical"@] + modules::level_classes(t),
        config.critical_threshold < cap <= config.warning_threshold ==> text::strs(r.css_classes@) == seq!["warning"@]
            + modules::level_classes(t),
        cap > config.critical_threshold && cap > config.warning_threshold ==> text::strs(r.css_classes@)
            == modules::level_classes(t),
{
    let m = r.model();
    let t = choose|t: Option<u32>|
        {
            &&& #[trigger] config::is_level(
                config.levels@,
                cap as nat,
                special_level(config, cap, status, online),
                (m.text->0, t),
            )
            &&& m.icon is None
            &&& m.tooltip == Some(
                if plugged(status, online) {
                    "Plugged"@
                } else {
                    "Unplugged"@
                },
            )
            &&& m.classes == battery_classes(config, cap, status, online) + modules::level_classes(t)
        };
    assert(Seq::<Seq<char>>::empty() + modules::level_classes(t) =~= modules::level_classes(t));
    assert(!text::same_but_case(status, "Full"@)) by {
        law_plugged_goes_by_the_state(status, online);
    }
    t
}

/// A battery that is plugged in is shown as charging, and as full where it is full and there
/// is a text for that.
pub proof fn law_plugged_battery_is_charging_or_full(
    config: BatteryConfig,
    cap: u8,
    status: Seq<char>,
    online: bool,
    r: ModuleState,
) -> (t: Option<u32>)
    requires
        shows_battery(config, cap, status, online, r.model()),
        plugged(status, online),
    ensures
        r.text is Some,
        (cap >= 100 || text::same_but_case(status, "Full"@)) && config.levels@.dom().contains("full"@)
            ==> config::is_level(config.levels@, cap as nat, Some("full"@), (r.text->0@, t)) && text::strs(r.css_classes@)
            == seq!["full"@, "charging"@] + modules::level_classes(t),
        (cap < 100 && !text::same_but_case(status, "Full"@)) || !config.levels@.dom().contains("full"@)
            ==> config::is_level(config.levels@, cap as nat, Some("charging"@), (r.text->0@, t)) && text::strs(
            r.css_classes@,
        ) == seq!["charging"@] + modules::level_classes(t),
{
    let m = r.model();
    choose|t: Option<u32>|
        {
            &&& #[trigger] config::is_level(
                config.levels@,
                cap as nat,
                special_level(config, cap, status, online),
                (m.text->0, t),
            )
            &&& m.icon is None
            &&& m.tooltip == Some(
                if plugged(status, online) {
                    "Plugged"@
                } else {
                    "Unplugged"@
                },
            )
            &&& m.classes == battery_classes(config, cap, status, online) + modules::level_classes(t)
        }
}

/// Without a battery there is no text, and the tooltip says so.
pub proof fn law_no_battery_is_told(r: ModuleState)
    requires
        r.model() == shows_no_battery(),
    ensures
        r.text is None,
        r.tooltip is Some && r.tooltip->0@ == "No battery"@,
        r.css_classes@.len() == 1 && r.css_classes@[0]@ == "no-battery"@,
{
    assert(r.model().classes.len() == r.css_classes@.len());
    assert(r.model().classes[0] == r.css_classes@[0]@);
}

/// The module goes by its name, runs the commands of its section, and nothing by itself.
pub proof fn law_battery_runs_its_commands(m: BatteryModule)
    ensures
        m.title() == "battery"@,
        !m.acts_by_itself(),
        m.commands().0 == text::opt(m.config.click.on_click_left),
        m.commands().1 == text::opt(m.config.click.on_click_right),
        m.commands().2 == text::opt(m.config.click.on_click_middle),
{
}

/// There is a battery where one of the supplies is one.
pub proof fn law_battery_is_one_of_the_supplies(v: Seq<PowerSupply>, i: int) -> (k: int)
    requires
        0 <= i < v.len(),
    ensures
        is_battery(v[i]) ==> any_battery(v),
        any_battery(v) ==> 0 <= k < v.len() && is_battery(v[k]),
{
    choose|k: int| 0 <= k < v.len() && is_battery(#[trigger] v[k])
}

} // verus!
