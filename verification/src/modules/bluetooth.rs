//! Bluetooth: how its state is read, shown and switched.
use vstd::prelude::*;
use vstd::string::StringExecFns;

use crate::config;
use crate::config::{resolve_mode, BluetoothConfig};
use crate::modules;
use crate::modules::tray::protocol::Variant;
use crate::modules::{
    push_class, shell_command, BarModule, Commands, HealthNote, ModuleState, MouseButton, Orientation,
    PollHealth, StateModel,
};
use crate::text;

verus! {

// ---------------------------------------------------------------------------
// States
// ---------------------------------------------------------------------------

/// The state of the adapter and of its devices.
#[derive(Debug, Clone, PartialEq, Eq)]
pub enum BluetoothState {
    Off,
    Loading,
    On,
    Connected { count: usize, device_name: Option<String> },
}

/// What a `BluetoothState` says.
pub ghost enum BluetoothModel {
    Off,
    Loading,
    On,
    Connected { count: nat, device_name: Option<Seq<char>> },
}

impl BluetoothState {
    /// What this state says.
    pub open spec fn model(self) -> BluetoothModel {
        match self {
            BluetoothState::Off => BluetoothModel::Off,
            BluetoothState::Loading => BluetoothModel::Loading,
            BluetoothState::On => BluetoothModel::On,
            BluetoothState::Connected { count, device_name } => BluetoothModel::Connected {
                count: count as nat,
                device_name: text::opt(device_name),
            },
        }
    }
}

fn same_state(a: &BluetoothState, b: &BluetoothState) -> (r: bool)
    ensures
        r == (a.model() == b.model()),
{
    match (a, b) {
        (BluetoothState::Off, BluetoothState::Off) => true,
        (BluetoothState::Loading, BluetoothState::Loading) => true,
        (BluetoothState::On, BluetoothState::On) => true,
        (
            BluetoothState::Connected { count: c, device_name: n },
            BluetoothState::Connected { count: d, device_name: m },
        ) => *c == *d && text::same_opt(n, m),
        _ => false,
    }
}

fn copy_state(s: &BluetoothState) -> (r: BluetoothState)
    ensures
        r.model() == s.model(),
{
    match s {
        BluetoothState::Off => BluetoothState::Off,
        BluetoothState::Loading => BluetoothState::Loading,
        BluetoothState::On => BluetoothState::On,
        BluetoothState::Connected { count, device_name } => BluetoothState::Connected {
            count: *count,
            device_name: text::copy_opt(device_name),
        },
    }
}

/// The number of devices that are connected.
pub open spec fn connected(devices: Seq<(Seq<char>, bool)>) -> nat
    decreases devices.len(),
{
    if devices.len() == 0 {
        0
    } else {
        connected(devices.drop_last()) + if devices.last().1 {
            1nat
        } else {
            0
        }
    }
}

/// The name of the first connected device that has one.
pub open spec fn first_connected(devices: Seq<(Seq<char>, bool)>) -> Option<Seq<char>>
    decreases devices.len(),
{
    if devices.len() == 0 {
        None
    } else {
        match first_connected(devices.drop_last()) {
            Some(n) => Some(n),
            None => if devices.last().1 && devices.last().0.len() > 0 {
                Some(devices.last().0)
            } else {
                None
            },
        }
    }
}

/// The state by the properties of the adapter and of the devices: on the way while the
/// adapter is being switched, off where it has no power, else on, with the devices
/// that are connected.
pub open spec fn state_by(
    powered: bool,
    power_state: Option<Seq<char>>,
    devices: Seq<(Seq<char>, bool)>,
) -> BluetoothModel {
    if power_state is Some && (text::has(power_state->0, "enabling"@) || text::has(
        power_state->0,
        "disabling"@,
    )) {
        BluetoothModel::Loading
    } else if !powered {
        BluetoothModel::Off
    } else if connected(devices) > 0 {
        BluetoothModel::Connected {
            count: connected(devices),
            device_name: first_connected(devices),
        }
    } else {
        BluetoothModel::On
    }
}

/// The names of devices, each with whether it is connected.
pub open spec fn device_views(d: Seq<(&str, bool)>) -> Seq<(Seq<char>, bool)> {
    Seq::new(d.len(), |i: int| (d[i].0@, d[i].1))
}

/// The names of devices, each with whether it is connected.
pub open spec fn device_models(d: Seq<(String, bool)>) -> Seq<(Seq<char>, bool)> {
    Seq::new(d.len(), |i: int| (d[i].0@, d[i].1))
}

// ---------------------------------------------------------------------------
// Objects of the bus
// ---------------------------------------------------------------------------

/// An interface of an object on the bus, with its properties.
#[derive(Debug)]
pub struct BusInterface {
    pub name: String,
    pub props: Vec<(String, Variant)>,
}

/// The text that a value is.
pub open spec fn value_text(v: Variant) -> Option<Seq<char>> {
    match v {
        Variant::Str(s) => Some(s@),
        Variant::ObjectPath(s) => Some(s@),
        _ => None,
    }
}

/// The power of an adapter, and the word for its power state.
pub ghost struct AdapterModel {
    pub powered: bool,
    pub power_state: Option<Seq<char>>,
}

/// What is known of adapters after the properties of one.
pub open spec fn adapter_after(a: AdapterModel, props: Seq<(String, Variant)>) -> AdapterModel
    decreases props.len(),
{
    if props.len() == 0 {
        a
    } else {
        let b = adapter_after(a, props.drop_last());
        let (name, v) = props.last();
        if name@ == "Powered"@ {
            match v {
                Variant::Bool(p) => AdapterModel { powered: p, ..b },
                _ => b,
            }
        } else if name@ == "PowerState"@ {
            match value_text(v) {
                Some(s) => AdapterModel { power_state: Some(s), ..b },
                None => b,
            }
        } else {
            b
        }
    }
}

/// The name of a device, and whether it is connected, by its properties: the first of
/// its names that is not empty, in their order.
pub open spec fn device_by(props: Seq<(String, Variant)>) -> (Seq<char>, bool)
    decreases props.len(),
{
    if props.len() == 0 {
        (Seq::empty(), false)
    } else {
        let (n, c) = device_by(props.drop_last());
        let (name, v) = props.last();
        if name@ == "Connected"@ {
            match v {
                Variant::Bool(b) => (n, b),
                _ => (n, c),
            }
        } else if (name@ == "Alias"@ || name@ == "Name"@) && n.len() == 0 {
            (
                match value_text(v) {
                    Some(s) => s,
                    None => Seq::empty(),
                },
                c,
            )
        } else {
            (n, c)
        }
    }
}

/// What is known after the interfaces of the objects on the bus.
pub ghost struct ObjectsModel {
    pub found: bool,
    pub adapter: AdapterModel,
    pub devices: Seq<(Seq<char>, bool)>,
}

/// What the interfaces of the objects on the bus say.
pub open spec fn objects_by(v: Seq<BusInterface>) -> ObjectsModel
    decreases v.len(),
{
    if v.len() == 0 {
        ObjectsModel {
            found: false,
            adapter: AdapterModel { powered: false, power_state: None },
            devices: Seq::empty(),
        }
    } else {
        let o = objects_by(v.drop_last());
        let i = v.last();
        if i.name@ == "org.bluez.Adapter1"@ {
            ObjectsModel { found: true, adapter: adapter_after(o.adapter, i.props@), ..o }
        } else if i.name@ == "org.bluez.Device1"@ {
            ObjectsModel { devices: o.devices.push(device_by(i.props@)), ..o }
        } else {
            o
        }
    }
}

fn read_text(v: &Variant) -> (r: Option<&String>)
    ensures
        match r {
            Some(s) => value_text(*v) == Some(s@),
            None => value_text(*v) is None,
        },
{
    match v {
        Variant::Str(s) => Some(s),
        Variant::ObjectPath(s) => Some(s),
        _ => None,
    }
}

fn read_adapter(powered: &mut bool, power_state: &mut Option<String>, props: &Vec<(String, Variant)>)
    ensures
        (AdapterModel { powered: *final(powered), power_state: text::opt(*final(power_state)) })
            == adapter_after(
            AdapterModel { powered: *old(powered), power_state: text::opt(*old(power_state)) },
            props@,
        ),
{
    let ghost a: AdapterModel = AdapterModel {
        powered: *powered,
        power_state: text::opt(*power_state),
    };
    let mut i: usize = 0;
    assert(props@.take(0) =~= Seq::empty());
    while i < props.len()
        invariant
            i <= props@.len(),
            (AdapterModel { powered: *powered, power_state: text::opt(*power_state) })
                == adapter_after(a, props@.take(i as int)),
        decreases props@.len() - i,
    {
        assert(props@.take(i + 1).drop_last() =~= props@.take(i as int));
        assert(props@.take(i + 1).last() == props@[i as int]);
        let name: &str = props[i].0.as_str();
        if text::same(name, "Powered") {
            if let Variant::Bool(p) = &props[i].1 {
                *powered = *p;
            }
        } else if text::same(name, "PowerState") {
            if let Some(s) = read_text(&props[i].1) {
                *power_state = Some(s.clone());
            }
        }
        i = i + 1;
    }
    assert(props@.take(i as int) =~= props@);
}

fn read_device(props: &Vec<(String, Variant)>) -> (r: (String, bool))
    ensures
        (r.0@, r.1) == device_by(props@),
{
    let mut name: String = String::new();
    let mut is_connected: bool = false;
    let mut i: usize = 0;
    assert(props@.take(0) =~= Seq::empty());
    assert(name@ =~= Seq::empty());
    while i < props.len()
        invariant
            i <= props@.len(),
            (name@, is_connected) == device_by(props@.take(i as int)),
        decreases props@.len() - i,
    {
        assert(props@.take(i + 1).drop_last() =~= props@.take(i as int));
        assert(props@.take(i + 1).last() == props@[i as int]);
        let key: &str = props[i].0.as_str();
        if text::same(key, "Connected") {
            if let Variant::Bool(b) = &props[i].1 {
                is_connected = *b;
            }
        } else if (text::same(key, "Alias") || text::same(key, "Name")) && text::len_chars(
            name.as_str(),
        ) == 0 {
            name = match read_text(&props[i].1) {
                Some(s) => s.clone(),
                None => String::new(),
            };
            assert(value_text(props@[i as int].1) is None ==> name@ =~= Seq::empty());
        }
        i = i + 1;
    }
    assert(props@.take(i as int) =~= props@);
    (name, is_connected)
}

/// The state by the interfaces of the objects on the bus; `None` without an adapter.
pub fn read_managed_objects(interfaces: &Vec<BusInterface>) -> (r: Option<BluetoothState>)
    ensures
        ({
            let o = objects_by(interfaces@);
            match r {
                Some(s) => o.found && s.model() == state_by(
                    o.adapter.powered,
                    o.adapter.power_state,
                    o.devices,
                ),
                None => !o.found,
            }
        }),
{
    let mut found: bool = false;
    let mut powered: bool = false;
    let mut power_state: Option<String> = None;
    let mut devices: Vec<(String, bool)> = Vec::new();
    let mut i: usize = 0;
    assert(interfaces@.take(0) =~= Seq::empty());
    assert(device_models(devices@) =~= Seq::empty());
    while i < interfaces.len()
        invariant
            i <= interfaces@.len(),
            ({
                let o = objects_by(interfaces@.take(i as int));
                &&& o.found == found
                &&& o.adapter.powered == powered
                &&& o.adapter.power_state == text::opt(power_state)
                &&& o.devices == device_models(devices@)
            }),
        decreases interfaces@.len() - i,
    {
        assert(interfaces@.take(i + 1).drop_last() =~= interfaces@.take(i as int));
        assert(interfaces@.take(i + 1).last() == interfaces@[i as int]);
        let it: &BusInterface = &interfaces[i];
        if text::same(it.name.as_str(), "org.bluez.Adapter1") {
            found = true;
            read_adapter(&mut powered, &mut power_state, &it.props);
        } else if text::same(it.name.as_str(), "org.bluez.Device1") {
            let ghost before: Seq<(String, bool)> = devices@;
            let d: (String, bool) = read_device(&it.props);
            devices.push(d);
            assert(device_models(devices@) =~= device_models(before).push((d.0@, d.1)));
        }
        i = i + 1;
    }
    assert(interfaces@.take(i as int) =~= interfaces@);
    if !found {
        return None;
    }
    let word: Option<&str> = match &power_state {
        Some(s) => Some(s.as_str()),
        None => None,
    };
    Some(state_by_properties(powered, word, &devices))
}

fn state_by_properties(powered: bool, power_state: Option<&str>, devices: &Vec<(String, bool)>) -> (r:
    BluetoothState)
    ensures
        r.model() == state_by(powered, text::opt_str(power_state), device_models(devices@)),
{
    let ghost all: Seq<(Seq<char>, bool)> = device_models(devices@);
    if let Some(s) = power_state {
        if text::contains(s, "enabling") || text::contains(s, "disabling") {
            return BluetoothState::Loading;
        }
    }
    if !powered {
        return BluetoothState::Off;
    }
    let mut count: usize = 0;
    let mut first: Option<String> = None;
    let mut i: usize = 0;
    assert(all.take(0) =~= Seq::empty());
    while i < devices.len()
        invariant
            i <= devices@.len(),
            all == device_models(devices@),
            count <= i,
            count == connected(all.take(i as int)),
            text::opt(first) == first_connected(all.take(i as int)),
        decreases devices@.len() - i,
    {
        assert(all.take(i + 1).drop_last() =~= all.take(i as int));
        assert(all.take(i + 1).last() == (devices@[i as int].0@, devices@[i as int].1));
        if devices[i].1 {
            count = count + 1;
            if first.is_none() && text::len_chars(devices[i].0.as_str()) > 0 {
                first = Some(devices[i].0.clone());
            }
        }
        i = i + 1;
    }
    assert(all.take(i as int) =~= all);
    if count > 0 {
        BluetoothState::Connected { count, device_name: first }
    } else {
        BluetoothState::On
    }
}

// ---------------------------------------------------------------------------
// Switches
// ---------------------------------------------------------------------------

/// A radio switch as the system lists it: the kind of radio, and its state.
#[derive(Debug, Clone)]
pub struct RadioSwitch {
    pub kind: String,
    pub state: String,
}

/// The switch is one for bluetooth.
pub open spec fn for_bluetooth(s: RadioSwitch) -> bool {
    text::trimmed(s.kind@) == "bluetooth"@
}

/// The switch holds bluetooth back.
pub open spec fn blocks(s: RadioSwitch) -> bool {
    for_bluetooth(s) && text::trimmed(s.state@) != "1"@
}

/// Whether there is a switch for bluetooth, and whether none holds it back.
pub fn read_rfkill(switches: &Vec<RadioSwitch>) -> (r: (bool, bool))
    ensures
        r.0 == exists|i: int| 0 <= i < switches@.len() && for_bluetooth(#[trigger] switches@[i]),
        r.1 == !exists|i: int| 0 <= i < switches@.len() && blocks(#[trigger] switches@[i]),
{
    let mut found: bool = false;
    let mut i: usize = 0;
    while i < switches.len()
        invariant
            i <= switches@.len(),
            found == exists|k: int| 0 <= k < i && for_bluetooth(#[trigger] switches@[k]),
            forall|k: int| 0 <= k < i ==> !blocks(#[trigger] switches@[k]),
        decreases switches@.len() - i,
    {
        if text::same(text::trim(switches[i].kind.as_str()).as_str(), "bluetooth") {
            found = true;
            assert(for_bluetooth(switches@[i as int]));
            if !text::same(text::trim(switches[i].state.as_str()).as_str(), "1") {
                assert(blocks(switches@[i as int]));
                return (true, false);
            }
        }
        i = i + 1;
    }
    (found, true)
}

impl BluetoothModule {
    /// The state, and whether its sources work: off and working where a switch holds
    /// bluetooth back; else what the bus says; without that off, and working only where
    /// there is a switch.
    pub fn read_bluetooth_state_full(rfkill: (bool, bool), bus: Option<BluetoothState>) -> (r: (
        BluetoothState,
        bool,
    ))
        ensures
            !rfkill.1 ==> r.0 is Off && r.1,
            rfkill.1 && bus is Some ==> Some(r.0) == bus && r.1,
            rfkill.1 && bus is None ==> r.0 is Off && r.1 == rfkill.0,
    {
        if !rfkill.1 {
            return (BluetoothState::Off, true);
        }
        match bus {
            Some(s) => (s, true),
            None => (BluetoothState::Off, rfkill.0),
        }
    }

    /// The state by itself.
    pub fn read_bluetooth_state(rfkill: (bool, bool), bus: Option<BluetoothState>) -> (r: BluetoothState)
        ensures
            !rfkill.1 ==> r is Off,
            rfkill.1 && bus is Some ==> Some(r) == bus,
            rfkill.1 && bus is None ==> r is Off,
    {
        BluetoothModule::read_bluetooth_state_full(rfkill, bus).0
    }
}

/// The command that switches bluetooth: off where it is on, on where it is not. There
/// is none where the sources do not work.
pub fn toggle_command(state: &BluetoothState, healthy: bool) -> (r: Option<&'static str>)
    ensures
        text::opt_str(r) == (if !healthy {
            None
        } else {
            match state.model() {
                BluetoothModel::On | BluetoothModel::Connected { .. } => Some(
                    "bluetoothctl power off && rfkill block bluetooth"@,
                ),
                _ => Some("rfkill unblock bluetooth && bluetoothctl power on"@),
            }
        }),
{
    if !healthy {
        return None;
    }
    match state {
        BluetoothState::On | BluetoothState::Connected { .. } => Some(
            "bluetoothctl power off && rfkill block bluetooth",
        ),
        _ => Some("rfkill unblock bluetooth && bluetoothctl power on"),
    }
}

// ---------------------------------------------------------------------------
// What is shown
// ---------------------------------------------------------------------------

/// The name of a device, or a word for one without a name.
pub open spec fn device_words(name: Option<Seq<char>>) -> Seq<char> {
    match name {
        Some(n) => n,
        None => "Connected"@,
    }
}

/// The name of the mode of a state.
pub open spec fn mode_of(m: BluetoothModel) -> Seq<char> {
    match m {
        BluetoothModel::Off => "off"@,
        BluetoothModel::Loading => "loading"@,
        BluetoothModel::On => "on"@,
        BluetoothModel::Connected { .. } => "connected"@,
    }
}

/// The placeholders of a state, and what they stand for.
pub open spec fn placeholders_of(m: BluetoothModel) -> Seq<(Seq<char>, Seq<char>)> {
    match m {
        BluetoothModel::Off => seq![("%d"@, "Off"@), ("%c"@, "0"@)],
        BluetoothModel::Loading => seq![("%d"@, "..."@), ("%c"@, "0"@)],
        BluetoothModel::On => seq![("%d"@, "On"@), ("%c"@, "0"@)],
        BluetoothModel::Connected { count, device_name } => seq![
            ("%d"@, device_words(device_name)),
            ("%c"@, text::dec(count)),
        ],
    }
}

/// The classes of a state.
pub open spec fn classes_of(m: BluetoothModel) -> Seq<Seq<char>> {
    match m {
        BluetoothModel::Off => seq!["disabled"@, "off"@],
        BluetoothModel::Loading => seq!["loading"@],
        BluetoothModel::On => Seq::empty(),
        BluetoothModel::Connected { .. } => seq!["connected"@],
    }
}

/// The number of connected devices of a state.
pub open spec fn count_of(m: BluetoothModel) -> nat {
    match m {
        BluetoothModel::Connected { count, .. } => count,
        _ => 0,
    }
}

/// What is shown of a state. While it is on the way there is a text even without a
/// template.
pub open spec fn shown_state(config: BluetoothConfig, m: BluetoothModel) -> StateModel {
    StateModel {
        icon: None,
        text: Some(
            if m is Loading && !config.modes@.dom().contains("loading"@) {
                "\u{f00af}\n..."@
            } else {
                config::mode_text(config.modes@, mode_of(m), placeholders_of(m))
            },
        ),
        tooltip: Some("("@ + text::dec(count_of(m)) + " Connected)"@),
        classes: classes_of(m),
    }
}

/// What a click on the module does.
#[derive(Debug, Clone, PartialEq, Eq)]
pub struct BluetoothClick {
    /// The command that is run.
    pub command: Option<String>,
    /// Bluetooth is switched, and is shown as on the way until it is.
    pub toggle: bool,
}

/// Bluetooth.
#[derive(Debug, Clone)]
pub struct BluetoothModule {
    pub config: BluetoothConfig,
    /// The last state.
    pub last: BluetoothState,
}

impl BluetoothModule {
    /// A bluetooth module with a configuration and a first state.
    pub fn new(config: BluetoothConfig, initial: BluetoothState) -> (r: Self)
        ensures
            r.config == config,
            r.last == initial,
    {
        BluetoothModule { config, last: initial }
    }

    /// The state by the properties of the adapter and of the devices.
    pub fn parse_bluez_properties(
        powered: bool,
        power_state: Option<&str>,
        devices: &[(&str, bool)],
    ) -> (r: BluetoothState)
        ensures
            r.model() == state_by(powered, text::opt_str(power_state), device_views(devices@)),
    {
        let mut list: Vec<(String, bool)> = Vec::new();
        let mut i: usize = 0;
        while i < devices.len()
            invariant
                i <= devices@.len(),
                list@.len() == i,
                forall|k: int|
                    0 <= k < i ==> (#[trigger] list@[k]).0@ == devices@[k].0@ && list@[k].1
                        == devices@[k].1,
            decreases devices@.len() - i,
        {
            list.push((devices[i].0.to_owned(), devices[i].1));
            i = i + 1;
        }
        assert(device_models(list@) =~= device_views(devices@));
        state_by_properties(powered, power_state, &list)
    }

    /// What is shown of a state.
    pub fn format_state_with_config(
        config: &BluetoothConfig,
        state: &BluetoothState,
        _orientation: Orientation,
    ) -> (r: ModuleState)
        ensures
            r.model() == shown_state(*config, state.model()),
    {
        let ghost m: BluetoothModel = state.model();
        let mut css_classes: Vec<String> = Vec::new();
        assert(text::strs(css_classes@) =~= Seq::empty());
        let mut count: usize = 0;
        let (mode, device): (&str, &str) = match state {
            BluetoothState::Off => {
                push_class(&mut css_classes, "disabled");
                push_class(&mut css_classes, "off");
                ("off", "Off")
            },
            BluetoothState::Loading => {
                push_class(&mut css_classes, "loading");
                ("loading", "...")
            },
            BluetoothState::On => ("on", "On"),
            BluetoothState::Connected { count: n, device_name } => {
                push_class(&mut css_classes, "connected");
                count = *n;
                let name: &str = match device_name {
                    Some(d) => d.as_str(),
                    None => "Connected",
                };
                ("connected", name)
            },
        };
        assert(text::strs(css_classes@) =~= classes_of(m));
        let counted: String = text::decimal(count as u64);
        proof {
            reveal_strlit("0");
            assert(text::dec(0) =~= "0"@);
        }
        let loading: bool = match state {
            BluetoothState::Loading => true,
            _ => false,
        };
        let formatted: String = if loading && !config.modes.contains_key("loading") {
            "\u{f00af}\n...".to_owned()
        } else {
            let p: [(&str, &str); 2] = [("%d", device), ("%c", counted.as_str())];
            proof {
                assert(config::pairs(p@) =~= placeholders_of(m));
            }
            resolve_mode(&config.modes, mode, &p)
        };
        let mut tooltip: String = "(".to_owned();
        tooltip.append(counted.as_str());
        tooltip.append(" Connected)");
        ModuleState { icon: None, text: Some(formatted), tooltip: Some(tooltip), css_classes }
    }

    /// What is shown now.
    pub fn current_state(&self, orientation: Orientation) -> (r: ModuleState)
        ensures
            r.model() == shown_state(self.config, self.last.model()),
    {
        BluetoothModule::format_state_with_config(&self.config, &self.last, orientation)
    }

    /// A click on the module: its command is run; without one, the left button switches
    /// bluetooth.
    pub fn handle_click(&mut self, button: MouseButton) -> (r: BluetoothClick)
        ensures
            text::opt(r.command) == modules::runnable(
                modules::command_of(modules::commands_of(old(self).config.click), button),
            ),
            r.toggle == (button == MouseButton::Left && old(self).config.click.on_click_left is None),
            final(self).last.model() == (if r.toggle {
                BluetoothModel::Loading
            } else {
                old(self).last.model()
            }),
            final(self).config == old(self).config,
    {
        let (left, right, middle) = self.config.click.commands();
        let command: Option<String> = match button {
            MouseButton::Left => shell_command(left),
            MouseButton::Right => shell_command(right),
            MouseButton::Middle => shell_command(middle),
        };
        let toggle: bool = button == MouseButton::Left && self.config.click.on_click_left.is_none();
        if toggle {
            self.last = BluetoothState::Loading;
        }
        BluetoothClick { command, toggle }
    }
}

impl BarModule for BluetoothModule {
    open spec fn commands(&self) -> Commands {
        modules::commands_of(self.config.click)
    }

    open spec fn acts_by_itself(&self) -> bool {
        true
    }

    open spec fn title(&self) -> Seq<char> {
        "bluetooth"@
    }

    fn name(&self) -> (r: &'static str) {
        "bluetooth"
    }

    fn click_commands(&self) -> (r: (Option<&str>, Option<&str>, Option<&str>)) {
        self.config.click.commands()
    }

    fn has_default_action(&self) -> (r: bool) {
        true
    }
}

// ---------------------------------------------------------------------------
// Polling
// ---------------------------------------------------------------------------

/// How many readings come in quick succession after a trigger.
pub const TRIGGER_TICKS: u32 = 40;

/// How many readings come in quick succession while the state is on the way.
pub const LOADING_TICKS: u32 = 20;

/// What the worker that reads the state remembers.
#[derive(Debug)]
pub struct BluetoothWorker {
    /// The state that was shown last; `None` where the next one is shown whatever it is.
    pub last_state: Option<BluetoothState>,
    /// How many readings are still to come in quick succession.
    pub fast_ticks: u32,
    pub health: PollHealth,
}

/// What follows from a reading.
#[derive(Debug, Clone, Copy, PartialEq, Eq, Structural)]
pub struct BluetoothStep {
    /// The state is to be shown.
    pub changed: bool,
    pub note: HealthNote,
    /// The time until the next reading, in milliseconds.
    pub wait_ms: u64,
}

/// What a state that may be there says.
pub open spec fn opt_state(s: Option<BluetoothState>) -> Option<BluetoothModel> {
    match s {
        Some(t) => Some(t.model()),
        None => None,
    }
}

/// The number of readings that come in quick succession, at a reading.
pub open spec fn ticks_at(before: u32, triggered: bool, m: BluetoothModel) -> int {
    let t = if triggered {
        TRIGGER_TICKS as int
    } else {
        before as int
    };
    if m is Loading && t == 0 {
        LOADING_TICKS as int
    } else {
        t
    }
}

impl BluetoothWorker {
    /// A worker that showed a first state.
    pub fn new(initial: BluetoothState) -> (r: Self)
        ensures
            opt_state(r.last_state) == Some(initial.model()),
            r.fast_ticks == 0,
            r.health == (PollHealth { fail_streak: 0, warned: false }),
    {
        BluetoothWorker { last_state: Some(initial), fast_ticks: 0, health: PollHealth::new() }
    }

    /// Takes note of a reading. After a trigger its state is shown in any case, and
    /// readings come in quick succession for a while; while the state is on the way they
    /// do so too. Without that, the time between readings grows while the sources fail.
    pub fn step(&mut self, triggered: bool, state: &BluetoothState, healthy: bool) -> (r: BluetoothStep)
        ensures
            r.changed == (triggered || opt_state(old(self).last_state) != Some(state.model())),
            opt_state(final(self).last_state) == Some(state.model()),
            r.note == modules::note_after(old(self).health, healthy),
            final(self).health == modules::health_after(old(self).health, healthy),
            ({
                let ticks = ticks_at(old(self).fast_ticks, triggered, state.model());
                if ticks > 0 {
                    final(self).fast_ticks == ticks - 1 && r.wait_ms == 100
                } else {
                    final(self).fast_ticks == 0 && r.wait_ms == modules::backoff(
                        2000,
                        final(self).health.fail_streak as nat,
                        30000,
                    )
                }
            }),
    {
        if triggered {
            self.fast_ticks = TRIGGER_TICKS;
        }
        let note: HealthNote = self.health.record(healthy);
        let known: bool = match &self.last_state {
            Some(s) => same_state(s, state),
            None => false,
        };
        let changed: bool = triggered || !known;
        if !known {
            self.last_state = Some(copy_state(state));
        }
        let loading: bool = match state {
            BluetoothState::Loading => true,
            _ => false,
        };
        if loading && self.fast_ticks == 0 {
            self.fast_ticks = LOADING_TICKS;
        }
        let wait_ms: u64 = if self.fast_ticks > 0 {
            self.fast_ticks = self.fast_ticks - 1;
            100
        } else {
            self.health.wait(2000, 30000)
        };
        BluetoothStep { changed, note, wait_ms }
    }
}

/// While the state is on the way, the next reading comes quickly.
pub proof fn law_loading_is_watched(before: u32, triggered: bool)
    ensures
        ticks_at(before, triggered, BluetoothModel::Loading) > 0,
{
}

// ---------------------------------------------------------------------------
// What is told of bluetooth, and what is shown of it
// ---------------------------------------------------------------------------

/// States that say the same agree in each of their parts.
pub proof fn law_states_that_say_the_same_agree(a: BluetoothState, b: BluetoothState)
    requires
        a.model() == b.model(),
    ensures
        a is Off <==> b is Off,
        a is Loading <==> b is Loading,
        a is On <==> b is On,
        a matches BluetoothState::Connected { count: c, device_name: n } ==> (b matches BluetoothState::Connected {
            count: d,
            device_name: m,
        } && c == d && (n is Some <==> m is Some) && (n is Some ==> n->0@ == m->0@)),
{
}

/// The devices that are connected are counted.
pub proof fn law_connected_devices_are_counted(devices: Seq<(Seq<char>, bool)>)
    ensures
        connected(devices) == devices.filter(|d: (Seq<char>, bool)| d.1).len(),
    decreases devices.len(),
{
    let on = |d: (Seq<char>, bool)| d.1;
    reveal(Seq::filter);
    if devices.len() > 0 {
        law_connected_devices_are_counted(devices.drop_last());
    }
}

proof fn lemma_first_connected(devices: Seq<(Seq<char>, bool)>, k: int)
    requires
        0 <= k <= devices.len(),
        forall|j: int| 0 <= j < k ==> !((#[trigger] devices[j]).1 && devices[j].0.len() > 0),
        k < devices.len() ==> devices[k].1 && devices[k].0.len() > 0,
    ensures
        first_connected(devices) == (if k < devices.len() {
            Some(devices[k].0)
        } else {
            None
        }),
    decreases devices.len(),
{
    if devices.len() > 0 {
        let d = devices.drop_last();
        let n = devices.len();
        if k < n - 1 {
            assert(d[k] == devices[k]);
            assert forall|j: int| 0 <= j < k implies !((#[trigger] d[j]).1 && d[j].0.len() > 0) by {
                assert(d[j] == devices[j]);
            }
            lemma_first_connected(d, k);
        } else {
            assert forall|j: int| 0 <= j < d.len() implies !((#[trigger] d[j]).1 && d[j].0.len() > 0) by {
                assert(d[j] == devices[j]);
            }
            lemma_first_connected(d, d.len() as int);
            if k == n {
                assert(!(devices[n - 1].1 && devices[n - 1].0.len() > 0));
            }
        }
    }
}

/// The name that is shown is that of the first connected device that has one.
pub proof fn law_first_connected_device_is_named(devices: Seq<(Seq<char>, bool)>, k: int)
    requires
        0 <= k <= devices.len(),
        forall|j: int| 0 <= j < k ==> !((#[trigger] devices[j]).1 && devices[j].0.len() > 0),
        k < devices.len() ==> devices[k].1 && devices[k].0.len() > 0,
    ensures
        k < devices.len() ==> first_connected(devices) == Some(devices[k].0),
        k == devices.len() ==> first_connected(devices) is None,
{
    lemma_first_connected(devices, k);
}

/// While the adapter is being switched, bluetooth is on the way; else it is off without
/// power, connected with a connected device, and on without one.
pub proof fn law_state_goes_by_power_and_devices(
    powered: bool,
    word: Option<Seq<char>>,
    devices: Seq<(Seq<char>, bool)>,
    s: BluetoothState,
)
    requires
        s.model() == state_by(powered, word, devices),
    ensures
        s is Loading <==> word is Some && (text::has(word->0, "enabling"@) || text::has(word->0, "disabling"@)),
        s is Off <==> !powered && !(s is Loading),
        s is Connected <==> powered && !(s is Loading) && exists|i: int|
            0 <= i < devices.len() && (#[trigger] devices[i]).1,
        s matches BluetoothState::Connected { count, device_name } ==> count == devices.filter(
            |d: (Seq<char>, bool)| d.1,
        ).len() && text::opt(device_name) == first_connected(devices),
{
    law_connected_devices_are_counted(devices);
    lemma_any_connected(devices);
}

proof fn lemma_any_connected(devices: Seq<(Seq<char>, bool)>)
    ensures
        connected(devices) > 0 <==> exists|i: int| 0 <= i < devices.len() && (#[trigger] devices[i]).1,
    decreases devices.len(),
{
    if devices.len() > 0 {
        let d = devices.drop_last();
        lemma_any_connected(d);
        if exists|i: int| 0 <= i < d.len() && (#[trigger] d[i]).1 {
            let i = choose|i: int| 0 <= i < d.len() && (#[trigger] d[i]).1;
            assert(devices[i].1);
        }
        if devices.last().1 {
            assert(devices[devices.len() - 1].1);
        }
        if exists|i: int| 0 <= i < devices.len() && (#[trigger] devices[i]).1 {
            let i = choose|i: int| 0 <= i < devices.len() && (#[trigger] devices[i]).1;
            if i < d.len() {
                assert(d[i].1);
            }
        }
    }
}

/// The power of an adapter is the last truth value under `Powered`, and its state the last
/// text under `PowerState`; other properties do not count.
pub proof fn law_adapter_is_told_by_its_properties(a: AdapterModel, props: Seq<(String, Variant)>, name: String, v: Variant)
    ensures
        adapter_after(a, Seq::empty()) == a,
        ({
            let b = adapter_after(a, props);
            let c = adapter_after(a, props.push((name, v)));
            &&& name@ == "Powered"@ ==> c.power_state == b.power_state && c.powered == (if v is Bool {
                v->Bool_0
            } else {
                b.powered
            })
            &&& name@ == "PowerState"@ ==> c.powered == b.powered && c.power_state == (match v {
                Variant::Str(s) => Some(s@),
                Variant::ObjectPath(s) => Some(s@),
                _ => b.power_state,
            })
            &&& name@ != "Powered"@ && name@ != "PowerState"@ ==> c == b
        }),
{
    assert(props.push((name, v)).drop_last() =~= props);
    reveal_strlit("Powered");
    reveal_strlit("PowerState");
    assert("Powered"@.len() != "PowerState"@.len());
}

/// A device is connected by the last truth value under `Connected`, and named by the first
/// text that is not empty under `Alias` or `Name`; other properties do not count.
pub proof fn law_device_is_told_by_its_properties(props: Seq<(String, Variant)>, name: String, v: Variant)
    ensures
        device_by(Seq::empty()).0.len() == 0,
        !device_by(Seq::empty()).1,
        ({
            let b = device_by(props);
            let c = device_by(props.push((name, v)));
            &&& name@ == "Connected"@ ==> c.0 == b.0 && c.1 == (if v is Bool {
                v->Bool_0
            } else {
                b.1
            })
            &&& name@ == "Alias"@ || name@ == "Name"@ ==> c.1 == b.1 && (b.0.len() > 0 ==> c.0 == b.0) && (b.0.len() == 0
                ==> match v {
                Variant::Str(s) => c.0 == s@,
                Variant::ObjectPath(s) => c.0 == s@,
                _ => c.0.len() == 0,
            })
            &&& name@ != "Connected"@ && name@ != "Alias"@ && name@ != "Name"@ ==> c == b
        }),
{
    assert(props.push((name, v)).drop_last() =~= props);
    reveal_strlit("Connected");
    reveal_strlit("Alias");
    reveal_strlit("Name");
    assert("Connected"@.len() == 9 && "Alias"@.len() == 5 && "Name"@.len() == 4);
}

/// Adapters and devices are told by their interfaces; other interfaces do not count.
pub proof fn law_objects_are_told_by_their_interfaces(v: Seq<BusInterface>, i: BusInterface)
    ensures
        !objects_by(Seq::empty()).found,
        objects_by(Seq::empty()).devices.len() == 0,
        !objects_by(Seq::empty()).adapter.powered,
        objects_by(Seq::empty()).adapter.power_state is None,
        ({
            let b = objects_by(v);
            let c = objects_by(v.push(i));
            &&& i.name@ == "org.bluez.Adapter1"@ ==> c.found && c.adapter == adapter_after(b.adapter, i.props@)
                && c.devices == b.devices
            &&& i.name@ == "org.bluez.Device1"@ ==> c.found == b.found && c.adapter == b.adapter && c.devices
                == b.devices.push(device_by(i.props@))
            &&& i.name@ != "org.bluez.Adapter1"@ && i.name@ != "org.bluez.Device1"@ ==> c == b
        }),
{
    assert(v.push(i).drop_last() =~= v);
    reveal_strlit("org.bluez.Adapter1");
    reveal_strlit("org.bluez.Device1");
    assert("org.bluez.Adapter1"@.len() != "org.bluez.Device1"@.len());
}

/// A switch for bluetooth holds it back unless its state is one. Switches for other radios
/// do not count.
pub proof fn law_switch_holds_back_unless_it_is_on(s: RadioSwitch)
    ensures
        for_bluetooth(s) <==> text::trimmed(s.kind@) == "bluetooth"@,
        blocks(s) <==> text::trimmed(s.kind@) == "bluetooth"@ && text::trimmed(s.state@) != "1"@,
{
}

/// What is shown of bluetooth is the text of its mode, with the device and the number of
/// devices in their places; on hover the number of connected devices is told.
pub proof fn law_bluetooth_is_shown_by_its_mode(c: BluetoothConfig, s: BluetoothState, r: ModuleState)
    requires
        r.model() == shown_state(c, s.model()),
    ensures
        r.icon is None,
        r.text is Some,
        s is Off ==> r.text->0@ == config::mode_text(c.modes@, "off"@, seq![("%d"@, "Off"@), ("%c"@, "0"@)]) && text::strs(
            r.css_classes@,
        ) == seq!["disabled"@, "off"@],
        s is On ==> r.text->0@ == config::mode_text(c.modes@, "on"@, seq![("%d"@, "On"@), ("%c"@, "0"@)])
            && r.css_classes@.len() == 0,
        s is Loading && c.modes@.dom().contains("loading"@) ==> r.text->0@ == config::mode_text(
            c.modes@,
            "loading"@,
            seq![("%d"@, "..."@), ("%c"@, "0"@)],
        ),
        s is Loading && !c.modes@.dom().contains("loading"@) ==> r.text->0@ == "\u{f00af}\n..."@,
        s is Loading ==> text::strs(r.css_classes@) == seq!["loading"@],
        !(s is Connected) ==> r.tooltip is Some && r.tooltip->0@ == "("@ + text::dec(0) + " Connected)"@,
{
    assert(r.model().classes.len() == r.css_classes@.len());
}

/// With devices connected, the device that has a name and the number of devices stand in their
/// places; on hover the number is told.
pub proof fn law_connected_devices_are_shown(
    c: BluetoothConfig,
    count: usize,
    device_name: Option<String>,
    shown: Seq<char>,
    r: ModuleState,
)
    requires
        r.model() == shown_state(c, (BluetoothState::Connected { count, device_name }).model()),
        match device_name {
            Some(n) => shown == n@,
            None => shown == "Connected"@,
        },
    ensures
        r.text is Some && r.text->0@ == config::mode_text(
            c.modes@,
            "connected"@,
            seq![("%d"@, shown), ("%c"@, text::dec(count as nat))],
        ),
        text::strs(r.css_classes@) == seq!["connected"@],
        r.tooltip is Some && r.tooltip->0@ == "("@ + text::dec(count as nat) + " Connected)"@,
{
    let s = BluetoothState::Connected { count, device_name };
    assert(placeholders_of(s.model()) =~= seq![("%d"@, shown), ("%c"@, text::dec(count as nat))]);
}

/// After a trigger readings come quickly forty times; while bluetooth is on the way, twenty
/// times from when they would stop.
pub proof fn law_readings_come_quickly_after_a_trigger(before: u32, m: BluetoothModel)
    ensures
        ticks_at(before, true, m) == 40,
        before > 0 || !(m is Loading) ==> ticks_at(before, false, m) == before,
        before == 0 && m is Loading ==> ticks_at(before, false, m) == 20,
{
}

/// The module goes by its name, runs the commands of its section, and has an action of its
/// own.
pub proof fn law_bluetooth_runs_its_commands(m: BluetoothModule)
    ensures
        m.title() == "bluetooth"@,
        m.acts_by_itself(),
        m.commands().0 == text::opt(m.config.click.on_click_left),
        m.commands().1 == text::opt(m.config.click.on_click_right),
        m.commands().2 == text::opt(m.config.click.on_click_middle),
{
}

/// Devices stand for their names and whether they are connected, one by one.
pub proof fn law_devices_stand_in_their_order(
    owned: Seq<(String, bool)>,
    lent: Seq<(&str, bool)>,
    state: BluetoothState,
    i: int,
)
    ensures
        device_models(owned).len() == owned.len(),
        0 <= i < owned.len() ==> device_models(owned)[i].0 == owned[i].0@ && device_models(owned)[i].1 == owned[i].1,
        device_views(lent).len() == lent.len(),
        0 <= i < lent.len() ==> device_views(lent)[i].0 == lent[i].0@ && device_views(lent)[i].1 == lent[i].1,
        opt_state(None) is None,
        opt_state(Some(state)) == Some(state.model()),
{
}

} // verus!
