//! The network: how its state is read, and what is shown of it.
use vstd::prelude::*;

use crate::config;
use crate::config::{resolve_mode, NetworkConfig};
use crate::modules;
use crate::modules::{BarModule, Commands, ModuleState, Orientation, StateModel};
use crate::text;

verus! {

// ---------------------------------------------------------------------------
// States
// ---------------------------------------------------------------------------

/// The kind of connection.
#[derive(Clone, Copy, Debug, PartialEq, Eq, Structural)]
pub enum NetworkType {
    Wifi,
    Ethernet,
    Disconnected,
}

/// The kind of connection, and the name of the wireless network where it is known.
pub type NetworkState = (NetworkType, Option<String>);

/// What a state says.
pub open spec fn state_view(s: NetworkState) -> (NetworkType, Option<Seq<char>>) {
    (s.0, text::opt(s.1))
}

/// What a state that may be there says.
pub open spec fn opt_state(s: Option<NetworkState>) -> Option<(NetworkType, Option<Seq<char>>)> {
    match s {
        Some(t) => Some(state_view(t)),
        None => None,
    }
}

/// The interface is a virtual one, which says nothing of a physical connection.
pub open spec fn is_virtual(name: Seq<char>) -> bool {
    name == "lo"@ || text::begins(name, "veth"@) || text::begins(name, "docker"@) || text::begins(
        name,
        "br-"@,
    ) || text::begins(name, "virbr"@) || text::begins(name, "vmnet"@) || text::begins(name, "tun"@)
        || text::begins(name, "tap"@) || text::begins(name, "wg"@) || text::begins(name, "ww"@)
}

/// Whether the interface is a virtual one.
pub fn is_virtual_interface(name: &str) -> (r: bool)
    ensures
        r == is_virtual(name@),
{
    text::same(name, "lo") || text::starts_with(name, "veth") || text::starts_with(name, "docker")
        || text::starts_with(name, "br-") || text::starts_with(name, "virbr") || text::starts_with(
        name,
        "vmnet",
    ) || text::starts_with(name, "tun") || text::starts_with(name, "tap") || text::starts_with(
        name,
        "wg",
    ) || text::starts_with(name, "ww")
}

// ---------------------------------------------------------------------------
// Connections
// ---------------------------------------------------------------------------

/// The path of a connection, rather than of none.
pub open spec fn real_path() -> spec_fn(Seq<char>) -> bool {
    |p: Seq<char>| p.len() > 0 && p != "/"@
}

/// The connections that are asked about: the primary one, or all active ones where
/// there is no primary one.
pub open spec fn candidates(primary: Option<Seq<char>>, active: Seq<Seq<char>>) -> Seq<Seq<char>> {
    match primary {
        Some(p) => if real_path()(p) {
            seq![p]
        } else {
            active.filter(real_path())
        },
        None => active.filter(real_path()),
    }
}

fn is_real_path(p: &str) -> (r: bool)
    ensures
        r == real_path()(p@),
{
    text::len_chars(p) > 0 && !text::same(p, "/")
}

/// The connections that are asked about.
pub fn candidate_paths(primary: Option<&str>, active: &Vec<String>) -> (r: Vec<String>)
    ensures
        text::strs(r@) == candidates(text::opt_str(primary), text::strs(active@)),
{
    let mut r: Vec<String> = Vec::new();
    if let Some(p) = primary {
        if is_real_path(p) {
            r.push(p.to_owned());
            assert(text::strs(r@) =~= seq![p@]);
            return r;
        }
    }
    let ghost all: Seq<Seq<char>> = text::strs(active@);
    let mut i: usize = 0;
    assert(text::strs(r@) =~= all.take(0).filter(real_path())) by {
        reveal(Seq::filter);
    }
    while i < active.len()
        invariant
            i <= active@.len(),
            all == text::strs(active@),
            text::strs(r@) == all.take(i as int).filter(real_path()),
        decreases active@.len() - i,
    {
        proof {
            reveal(Seq::filter);
            assert(all.take(i + 1).drop_last() =~= all.take(i as int));
            assert(all.take(i + 1).last() == active@[i as int]@);
        }
        if is_real_path(active[i].as_str()) {
            let ghost before: Seq<String> = r@;
            r.push(active[i].clone());
            assert(text::strs(r@) =~= text::strs(before).push(active@[i as int]@));
        }
        i = i + 1;
    }
    assert(all.take(i as int) =~= all);
    r
}

/// The state by the type and the id of a connection.
pub open spec fn connection_state(conn_type: Seq<char>, id: Seq<char>) -> (
    NetworkType,
    Option<Seq<char>>,
) {
    if conn_type == "802-11-wireless"@ {
        (NetworkType::Wifi, Some(id))
    } else if conn_type == "802-3-ethernet"@ {
        (NetworkType::Ethernet, None)
    } else {
        (NetworkType::Disconnected, None)
    }
}

/// The types and ids of connections.
pub open spec fn connection_views(v: Seq<(String, String)>) -> Seq<(Seq<char>, Seq<char>)> {
    Seq::new(v.len(), |i: int| (v[i].0@, v[i].1@))
}

/// The state by the first connection that is a wireless or a wired one.
pub open spec fn first_state(v: Seq<(Seq<char>, Seq<char>)>) -> Option<(NetworkType, Option<Seq<char>>)>
    decreases v.len(),
{
    if v.len() == 0 {
        None
    } else if connection_state(v[0].0, v[0].1).0 != NetworkType::Disconnected {
        Some(connection_state(v[0].0, v[0].1))
    } else {
        first_state(v.drop_first())
    }
}

/// The state by the types and ids of connections.
pub fn first_connection(connections: &Vec<(String, String)>) -> (r: Option<NetworkState>)
    ensures
        opt_state(r) == first_state(connection_views(connections@)),
{
    let ghost all: Seq<(Seq<char>, Seq<char>)> = connection_views(connections@);
    let mut i: usize = 0;
    assert(all.skip(0) =~= all);
    while i < connections.len()
        invariant
            i <= connections@.len(),
            all == connection_views(connections@),
            first_state(all.skip(i as int)) == first_state(all),
        decreases connections@.len() - i,
    {
        assert(all.skip(i as int)[0] == (connections@[i as int].0@, connections@[i as int].1@));
        assert(all.skip(i as int).drop_first() =~= all.skip(i + 1));
        let s: NetworkState = NetworkModule::parse_nm_connection_type_and_id(
            connections[i].0.as_str(),
            connections[i].1.as_str(),
        );
        if s.0 != NetworkType::Disconnected {
            return Some(s);
        }
        i = i + 1;
    }
    None
}

// ---------------------------------------------------------------------------
// Routes
// ---------------------------------------------------------------------------

/// A default route: its interface, its flags and its metric.
pub ghost struct RouteModel {
    pub iface: Seq<char>,
    pub flags: nat,
    pub metric: nat,
}

/// The best route after another one: one that is up replaces it where its metric is
/// lower.
pub open spec fn better_route(best: Option<(Seq<char>, nat)>, r: RouteModel) -> Option<(Seq<char>, nat)> {
    if r.flags % 2 == 1 && (match best {
        Some((_, m)) => r.metric < m,
        None => true,
    }) {
        Some((r.iface, r.metric))
    } else {
        best
    }
}

/// The default route that a line of the table for IPv4 is.
pub open spec fn route4(line: Seq<char>) -> Option<RouteModel> {
    let w = text::words(line);
    if w.len() >= 7 && w[1] == "00000000"@ {
        match (text::parsed(w[3], 16, u32::MAX as nat), text::parsed(w[6], 10, u32::MAX as nat)) {
            (Some(flags), Some(metric)) => Some(RouteModel { iface: w[0], flags, metric }),
            _ => None,
        }
    } else {
        None
    }
}

/// Every character is a zero.
pub open spec fn all_zeros(s: Seq<char>) -> bool {
    forall|i: int| 0 <= i < s.len() ==> #[trigger] s[i] == '0'
}

/// The default route that a line of the table for IPv6 is.
pub open spec fn route6(line: Seq<char>) -> Option<RouteModel> {
    let w = text::words(line);
    if w.len() >= 10 && all_zeros(w[0]) && w[1] == "00"@ && w[9] != "lo"@ {
        match (text::parsed(w[8], 16, u32::MAX as nat), text::parsed(w[5], 16, u32::MAX as nat)) {
            (Some(flags), Some(metric)) => Some(RouteModel { iface: w[9], flags, metric }),
            _ => None,
        }
    } else {
        None
    }
}

/// The best default route of the lines of a table.
pub open spec fn best_of(lines: Seq<Seq<char>>, v6: bool) -> Option<(Seq<char>, nat)>
    decreases lines.len(),
{
    if lines.len() == 0 {
        None
    } else {
        let best = best_of(lines.drop_last(), v6);
        let r = if v6 {
            route6(lines.last())
        } else {
            route4(lines.last())
        };
        match r {
            Some(route) => better_route(best, route),
            None => best,
        }
    }
}

/// The default route that is up and that a line of a table is.
pub open spec fn usable_route(line: Seq<char>, v6: bool) -> Option<RouteModel> {
    let r = if v6 {
        route6(line)
    } else {
        route4(line)
    };
    match r {
        Some(route) => if route.flags % 2 == 1 {
            Some(route)
        } else {
            None
        },
        None => None,
    }
}

/// The best default route is one of the table that is up, and no other that is up has a
/// lower metric. There is none where none is up.
pub proof fn law_best_route_has_the_least_metric(lines: Seq<Seq<char>>, v6: bool)
    ensures
        match best_of(lines, v6) {
            Some((iface, metric)) => (exists|i: int|
                0 <= i < lines.len() && (usable_route(#[trigger] lines[i], v6) matches Some(r) && r.iface
                    == iface && r.metric == metric)) && forall|i: int|
                0 <= i < lines.len() ==> (usable_route(#[trigger] lines[i], v6) matches Some(r) ==> metric
                    <= r.metric),
            None => forall|i: int| 0 <= i < lines.len() ==> usable_route(#[trigger] lines[i], v6) is None,
        },
    decreases lines.len(),
{
    if lines.len() > 0 {
        let front = lines.drop_last();
        law_best_route_has_the_least_metric(front, v6);
        assert forall|i: int| 0 <= i < front.len() implies #[trigger] front[i] == lines[i] by {}
        assert(lines.last() == lines[lines.len() - 1]);
        match best_of(front, v6) {
            Some((iface, metric)) => {
                let k = choose|i: int|
                    0 <= i < front.len() && (usable_route(#[trigger] front[i], v6) matches Some(r) && r.iface
                        == iface && r.metric == metric);
                assert(usable_route(lines[k], v6) == usable_route(front[k], v6));
            },
            None => {},
        }
        assert forall|i: int| 0 <= i < lines.len() - 1 implies usable_route(#[trigger] lines[i], v6)
            == usable_route(front[i], v6) by {}
    }
}

/// The best default route of a table; that for IPv4 begins with a heading.
pub open spec fn best_route(table: Option<Seq<char>>, v6: bool) -> Option<(Seq<char>, nat)> {
    match table {
        Some(t) => {
            let lines = text::lines_of(t);
            if v6 {
                best_of(lines, true)
            } else {
                best_of(
                    if lines.len() > 0 {
                        lines.drop_first()
                    } else {
                        lines
                    },
                    false,
                )
            }
        },
        None => None,
    }
}

/// The interface of the default route: by the table for IPv4, else by that for IPv6.
pub open spec fn default_route(v4: Option<Seq<char>>, v6: Option<Seq<char>>) -> Option<Seq<char>> {
    match best_route(v4, false) {
        Some((iface, _)) => Some(iface),
        None => match best_route(v6, true) {
            Some((iface, _)) => Some(iface),
            None => None,
        },
    }
}

/// What a route says.
pub open spec fn route_view(r: Option<(String, u32)>) -> Option<(Seq<char>, nat)> {
    match r {
        Some((iface, metric)) => Some((iface@, metric as nat)),
        None => None,
    }
}

fn zeros_only(s: &str) -> (r: bool)
    ensures
        r == all_zeros(s@),
{
    let cs: Vec<char> = text::chars_of(s);
    let mut i: usize = 0;
    while i < cs.len()
        invariant
            cs@ == s@,
            i <= cs@.len(),
            forall|k: int| 0 <= k < i ==> #[trigger] cs@[k] == '0',
        decreases cs@.len() - i,
    {
        if cs[i] != '0' {
            assert(s@[i as int] != '0');
            return false;
        }
        i = i + 1;
    }
    true
}

fn read_route4(line: &str) -> (r: Option<(String, u32, u32)>)
    ensures
        match r {
            Some((iface, flags, metric)) => route4(line@) == Some(
                RouteModel { iface: iface@, flags: flags as nat, metric: metric as nat },
            ),
            None => route4(line@) is None,
        },
{
    let w: Vec<String> = text::split_whitespace(line);
    let ghost words: Seq<Seq<char>> = text::strs(w@);
    if w.len() < 7 {
        return None;
    }
    assert(words[0] == w@[0]@ && words[1] == w@[1]@ && words[3] == w@[3]@ && words[6] == w@[6]@);
    if !text::same(w[1].as_str(), "00000000") {
        return None;
    }
    let flags: Option<u64> = text::parse_number(w[3].as_str(), 16, u32::MAX as u64);
    let metric: Option<u64> = text::parse_number(w[6].as_str(), 10, u32::MAX as u64);
    match (flags, metric) {
        (Some(f), Some(m)) => Some((w[0].clone(), f as u32, m as u32)),
        _ => None,
    }
}

fn read_route6(line: &str) -> (r: Option<(String, u32, u32)>)
    ensures
        match r {
            Some((iface, flags, metric)) => route6(line@) == Some(
                RouteModel { iface: iface@, flags: flags as nat, metric: metric as nat },
            ),
            None => route6(line@) is None,
        },
{
    let w: Vec<String> = text::split_whitespace(line);
    let ghost words: Seq<Seq<char>> = text::strs(w@);
    if w.len() < 10 {
        return None;
    }
    assert(words[0] == w@[0]@ && words[1] == w@[1]@ && words[5] == w@[5]@ && words[8] == w@[8]@
        && words[9] == w@[9]@);
    if !zeros_only(w[0].as_str()) || !text::same(w[1].as_str(), "00") || text::same(
        w[9].as_str(),
        "lo",
    ) {
        return None;
    }
    let flags: Option<u64> = text::parse_number(w[8].as_str(), 16, u32::MAX as u64);
    let metric: Option<u64> = text::parse_number(w[5].as_str(), 16, u32::MAX as u64);
    match (flags, metric) {
        (Some(f), Some(m)) => Some((w[9].clone(), f as u32, m as u32)),
        _ => None,
    }
}

fn best_in(lines: &Vec<String>, from: usize, v6: bool) -> (r: Option<(String, u32)>)
    requires
        from <= lines@.len(),
    ensures
        route_view(r) == best_of(text::strs(lines@).skip(from as int), v6),
{
    let ghost all: Seq<Seq<char>> = text::strs(lines@).skip(from as int);
    let mut best: Option<(String, u32)> = None;
    let mut i: usize = from;
    assert(all.take(0) =~= Seq::empty());
    while i < lines.len()
        invariant
            from <= i <= lines@.len(),
            all == text::strs(lines@).skip(from as int),
            route_view(best) == best_of(all.take(i - from), v6),
        decreases lines@.len() - i,
    {
        assert(all.take(i + 1 - from).drop_last() =~= all.take(i - from));
        assert(all.take(i + 1 - from).last() == lines@[i as int]@);
        let route: Option<(String, u32, u32)> = if v6 {
            read_route6(lines[i].as_str())
        } else {
            read_route4(lines[i].as_str())
        };
        if let Some((iface, flags, metric)) = route {
            NetworkModule::update_best_route(&mut best, iface.as_str(), flags, metric);
        }
        i = i + 1;
    }
    assert(all.take(i - from) =~= all);
    best
}

/// The interface of the default route, by the tables of routes for IPv4 and for IPv6
/// where they can be read.
pub fn get_active_default_interface(v4: Option<&str>, v6: Option<&str>) -> (r: Option<String>)
    ensures
        text::opt(r) == default_route(text::opt_str(v4), text::opt_str(v6)),
{
    if let Some(table) = v4 {
        let lines: Vec<String> = text::lines(table);
        let from: usize = if lines.len() > 0 {
            1
        } else {
            0
        };
        proof {
            let all = text::strs(lines@);
            if all.len() > 0 {
                assert(all.skip(1) =~= all.drop_first());
            } else {
                assert(all.skip(0) =~= all);
            }
        }
        if let Some((iface, _)) = best_in(&lines, from, false) {
            return Some(iface);
        }
    }
    if let Some(table) = v6 {
        let lines: Vec<String> = text::lines(table);
        assert(text::strs(lines@).skip(0) =~= text::strs(lines@));
        if let Some((iface, _)) = best_in(&lines, 0, true) {
            return Some(iface);
        }
    }
    None
}

// ---------------------------------------------------------------------------
// Interfaces
// ---------------------------------------------------------------------------

/// The interface of the default route, and whether the system says that it is wireless
/// or that it belongs to a device.
#[derive(Debug, Clone)]
pub struct DefaultInterface {
    pub name: String,
    pub wireless: bool,
    pub device: bool,
}

/// An interface as the system lists it: its name and its state.
#[derive(Debug, Clone)]
pub struct Link {
    pub name: String,
    pub operstate: String,
}

/// The kind of connection by the interface of the default route.
pub open spec fn kind_of(d: DefaultInterface) -> Option<NetworkType> {
    if is_virtual(d.name@) {
        None
    } else if text::begins(d.name@, "wl"@) || d.wireless {
        Some(NetworkType::Wifi)
    } else if text::begins(d.name@, "en"@) || text::begins(d.name@, "eth"@) || d.device {
        Some(NetworkType::Ethernet)
    } else {
        None
    }
}

/// A wired interface that is up.
pub open spec fn wired_up(l: Link) -> bool {
    !is_virtual(l.name@) && text::trimmed(l.operstate@) == "up"@ && (text::begins(l.name@, "en"@)
        || text::begins(l.name@, "eth"@))
}

/// A wireless interface that is up.
pub open spec fn wireless_up(l: Link) -> bool {
    !is_virtual(l.name@) && text::trimmed(l.operstate@) == "up"@ && !(text::begins(l.name@, "en"@)
        || text::begins(l.name@, "eth"@)) && text::begins(l.name@, "wl"@)
}

/// The kind of connection by the interfaces that are up: wired before wireless.
pub open spec fn kind_by_links(links: Seq<Link>) -> Option<NetworkType> {
    if exists|i: int| 0 <= i < links.len() && wired_up(#[trigger] links[i]) {
        Some(NetworkType::Ethernet)
    } else if exists|i: int| 0 <= i < links.len() && wireless_up(#[trigger] links[i]) {
        Some(NetworkType::Wifi)
    } else {
        None
    }
}

fn read_kind(d: &DefaultInterface) -> (r: Option<NetworkType>)
    ensures
        r == kind_of(*d),
{
    let n: &str = d.name.as_str();
    if is_virtual_interface(n) {
        None
    } else if text::starts_with(n, "wl") || d.wireless {
        Some(NetworkType::Wifi)
    } else if text::starts_with(n, "en") || text::starts_with(n, "eth") || d.device {
        Some(NetworkType::Ethernet)
    } else {
        None
    }
}

fn read_links(links: &Vec<Link>) -> (r: Option<NetworkType>)
    ensures
        r == kind_by_links(links@),
{
    let mut eth_up: bool = false;
    let mut wifi_up: bool = false;
    let mut i: usize = 0;
    while i < links.len()
        invariant
            i <= links@.len(),
            eth_up == exists|k: int| 0 <= k < i && wired_up(#[trigger] links@[k]),
            wifi_up == exists|k: int| 0 <= k < i && wireless_up(#[trigger] links@[k]),
        decreases links@.len() - i,
    {
        let n: &str = links[i].name.as_str();
        if !is_virtual_interface(n) && text::same(
            text::trim(links[i].operstate.as_str()).as_str(),
            "up",
        ) {
            if text::starts_with(n, "en") || text::starts_with(n, "eth") {
                eth_up = true;
                assert(wired_up(links@[i as int]));
            } else if text::starts_with(n, "wl") {
                wifi_up = true;
                assert(wireless_up(links@[i as int]));
            }
        }
        i = i + 1;
    }
    if eth_up {
        Some(NetworkType::Ethernet)
    } else if wifi_up {
        Some(NetworkType::Wifi)
    } else {
        None
    }
}

/// The state, and whether its sources work: what the network service says; else by the
/// interface of the default route; else by the interfaces that are up; else there is no
/// connection, and the sources work where any of them can be read.
pub open spec fn full_state(
    service: Option<(NetworkType, Option<Seq<char>>)>,
    default: Option<DefaultInterface>,
    links: Seq<Link>,
    readable: bool,
) -> ((NetworkType, Option<Seq<char>>), bool) {
    match service {
        Some(s) => (s, true),
        None => match (match default {
            Some(d) => kind_of(d),
            None => None,
        }) {
            Some(t) => ((t, None), true),
            None => match kind_by_links(links) {
                Some(t) => ((t, None), true),
                None => ((NetworkType::Disconnected, None), readable),
            },
        },
    }
}

/// The state, and whether its sources work.
pub fn read_network_state_full(
    service: Option<NetworkState>,
    default: &Option<DefaultInterface>,
    links: &Vec<Link>,
    readable: bool,
) -> (r: (NetworkState, bool))
    ensures
        (state_view(r.0), r.1) == full_state(opt_state(service), *default, links@, readable),
{
    if let Some(s) = service {
        return (s, true);
    }
    if let Some(d) = default {
        if let Some(t) = read_kind(d) {
            return ((t, None), true);
        }
    }
    match read_links(links) {
        Some(t) => ((t, None), true),
        None => ((NetworkType::Disconnected, None), readable),
    }
}

/// A virtual interface never counts as a connection, neither as the default route nor
/// as an interface that is up.
pub proof fn law_virtual_interfaces_do_not_count(default: DefaultInterface, links: Seq<Link>, readable: bool)
    requires
        is_virtual(default.name@),
        forall|i: int| 0 <= i < links.len() ==> is_virtual((#[trigger] links[i]).name@),
    ensures
        full_state(None, Some(default), links, readable) == (
            (NetworkType::Disconnected, None::<Seq<char>>),
            readable,
        ),
{
}

// ---------------------------------------------------------------------------
// What is shown
// ---------------------------------------------------------------------------

/// What is shown of a state.
pub open spec fn shown_state(config: NetworkConfig, kind: NetworkType, ssid: Option<Seq<char>>) -> StateModel {
    let (mode, tooltip, class, word) = match kind {
        NetworkType::Wifi => {
            let name = match ssid {
                Some(s) => s,
                None => "Wi-Fi"@,
            };
            ("wifi"@, name, "wifi"@, name)
        },
        NetworkType::Ethernet => ("lan"@, "Ethernet"@, "ethernet"@, "Ethernet"@),
        NetworkType::Disconnected => (
            "disconnected"@,
            "Disconnected"@,
            "disconnected"@,
            "Off"@,
        ),
    };
    StateModel {
        icon: None,
        text: Some(config::mode_text(config.modes@, mode, seq![("%s"@, word)])),
        tooltip: Some(tooltip),
        classes: seq![class],
    }
}

/// The network.
#[derive(Debug)]
pub struct NetworkModule {
    pub config: NetworkConfig,
    /// The last state.
    pub last: NetworkState,
}

impl NetworkModule {
    /// A network module with a configuration and a first state.
    pub fn new(config: NetworkConfig, initial: NetworkState) -> (r: Self)
        ensures
            r.config == config,
            r.last == initial,
    {
        NetworkModule { config, last: initial }
    }

    /// The state by the type and the id of a connection.
    pub fn parse_nm_connection_type_and_id(conn_type: &str, id: &str) -> (r: (
        NetworkType,
        Option<String>,
    ))
        ensures
            state_view(r) == connection_state(conn_type@, id@),
    {
        if text::same(conn_type, "802-11-wireless") {
            (NetworkType::Wifi, Some(id.to_owned()))
        } else if text::same(conn_type, "802-3-ethernet") {
            (NetworkType::Ethernet, None)
        } else {
            (NetworkType::Disconnected, None)
        }
    }

    /// Holds a route against the best one so far.
    pub fn update_best_route(best: &mut Option<(String, u32)>, iface: &str, flags: u32, metric: u32)
        ensures
            route_view(*final(best)) == better_route(
                route_view(*old(best)),
                RouteModel { iface: iface@, flags: flags as nat, metric: metric as nat },
            ),
    {
        let better: bool = match &*best {
            Some(b) => metric < b.1,
            None => true,
        };
        if flags % 2 == 1 && better {
            *best = Some((iface.to_owned(), metric));
        }
    }

    /// Takes note of a state. Says whether it is another one than the last.
    pub fn record(&mut self, state: NetworkState) -> (changed: bool)
        ensures
            changed == (state_view(state) != state_view(old(self).last)),
            state_view(final(self).last) == state_view(state),
            final(self).config == old(self).config,
    {
        let same: bool = self.last.0 == state.0 && text::same_opt(&self.last.1, &state.1);
        if !same {
            self.last = state;
        }
        !same
    }

    /// What is shown of a state.
    pub fn format_state_with_config(
        config: &NetworkConfig,
        net_type: &NetworkType,
        ssid_opt: Option<&str>,
        _orientation: Orientation,
    ) -> (r: ModuleState)
        ensures
            r.model() == shown_state(*config, *net_type, text::opt_str(ssid_opt)),
    {
        let (mode, tooltip, class, word): (&str, &str, &str, &str) = match *net_type {
            NetworkType::Wifi => {
                let name: &str = match ssid_opt {
                    Some(s) => s,
                    None => "Wi-Fi",
                };
                ("wifi", name, "wifi", name)
            },
            NetworkType::Ethernet => ("lan", "Ethernet", "ethernet", "Ethernet"),
            NetworkType::Disconnected => (
                "disconnected",
                "Disconnected",
                "disconnected",
                "Off",
            ),
        };
        let p: [(&str, &str); 1] = [("%s", word)];
        assert(config::pairs(p@) =~= seq![("%s"@, word@)]);
        let formatted: String = resolve_mode(&config.modes, mode, &p);
        let mut css_classes: Vec<String> = Vec::new();
        css_classes.push(class.to_owned());
        assert(text::strs(css_classes@) =~= seq![class@]);
        ModuleState {
            icon: None,
            text: Some(formatted),
            tooltip: Some(tooltip.to_owned()),
            css_classes,
        }
    }

    /// What is shown now.
    pub fn current_state(&self, orientation: Orientation) -> (r: ModuleState)
        ensures
            r.model() == shown_state(self.config, self.last.0, text::opt(self.last.1)),
    {
        let ssid: Option<&str> = match &self.last.1 {
            Some(s) => Some(s.as_str()),
            None => None,
        };
        NetworkModule::format_state_with_config(&self.config, &self.last.0, ssid, orientation)
    }
}

impl BarModule for NetworkModule {
    open spec fn commands(&self) -> Commands {
        modules::commands_of(self.config.click)
    }

    open spec fn acts_by_itself(&self) -> bool {
        false
    }

    open spec fn title(&self) -> Seq<char> {
        "network"@
    }

    fn name(&self) -> (r: &'static str) {
        "network"
    }

    fn click_commands(&self) -> (r: (Option<&str>, Option<&str>, Option<&str>)) {
        self.config.click.commands()
    }

    fn has_default_action(&self) -> (r: bool) {
        false
    }
}

// ---------------------------------------------------------------------------
// What is told of the network, and what is shown of it
// ---------------------------------------------------------------------------

/// States that say the same are of one kind, and of one network.
pub proof fn law_states_that_say_the_same_agree(a: NetworkState, b: NetworkState)
    requires
        state_view(a) == state_view(b),
    ensures
        a.0 == b.0,
        a.1 is Some <==> b.1 is Some,
        a.1 is Some ==> a.1->0@ == b.1->0@,
{
}

/// The loopback interface is virtual, and so are those whose names begin as those of
/// containers, bridges, tunnels and modems do; no others are.
pub proof fn law_virtual_interfaces_are_told_by_their_names(name: Seq<char>)
    ensures
        is_virtual(name) <==> name == "lo"@ || text::begins(name, "veth"@) || text::begins(name, "docker"@)
            || text::begins(name, "br-"@) || text::begins(name, "virbr"@) || text::begins(name, "vmnet"@) || text::begins(
            name,
            "tun"@,
        ) || text::begins(name, "tap"@) || text::begins(name, "wg"@) || text::begins(name, "ww"@),
{
}

/// The primary connection alone is asked about where there is one, else all active ones.
/// Neither an empty path nor the root is a connection.
pub proof fn law_primary_connection_comes_first(primary: Option<Seq<char>>, active: Seq<Seq<char>>)
    ensures
        primary is Some && primary->0.len() > 0 && primary->0 != "/"@ ==> candidates(primary, active) == seq![primary->0],
        primary is None || primary->0.len() == 0 || primary->0 == "/"@ ==> candidates(primary, active) == active.filter(
            |p: Seq<char>| p.len() > 0 && p != "/"@,
        ),
{
    assert(real_path() =~= (|p: Seq<char>| p.len() > 0 && p != "/"@));
}

/// A wireless connection has the name of its network, a wired one has none, and others are
/// no connections.
pub proof fn law_connections_go_by_their_type(t: Seq<char>, id: Seq<char>)
    ensures
        t == "802-11-wireless"@ ==> connection_state(t, id) == (NetworkType::Wifi, Some(id)),
        t == "802-3-ethernet"@ ==> connection_state(t, id) == (NetworkType::Ethernet, None::<Seq<char>>),
        t != "802-11-wireless"@ && t != "802-3-ethernet"@ ==> connection_state(t, id).0 is Disconnected,
{
    reveal_strlit("802-11-wireless");
    reveal_strlit("802-3-ethernet");
    assert("802-11-wireless"@.len() != "802-3-ethernet"@.len());
}

proof fn lemma_first_state(v: Seq<(Seq<char>, Seq<char>)>, k: int)
    requires
        0 <= k <= v.len(),
        forall|j: int| 0 <= j < k ==> connection_state((#[trigger] v[j]).0, v[j].1).0 is Disconnected,
        k < v.len() ==> !(connection_state(v[k].0, v[k].1).0 is Disconnected),
    ensures
        first_state(v) == (if k < v.len() {
            Some(connection_state(v[k].0, v[k].1))
        } else {
            None
        }),
    decreases v.len(),
{
    if v.len() > 0 && k > 0 {
        assert(connection_state(v[0].0, v[0].1).0 is Disconnected);
        let d = v.drop_first();
        assert forall|j: int| 0 <= j < k - 1 implies connection_state((#[trigger] d[j]).0, d[j].1).0 is Disconnected by {
            assert(d[j] == v[j + 1]);
        }
        if k < v.len() {
            assert(d[k - 1] == v[k]);
        }
        lemma_first_state(d, k - 1);
    }
}

/// The first connection that is wireless or wired decides.
pub proof fn law_first_connection_decides(v: Seq<(Seq<char>, Seq<char>)>, k: int)
    requires
        0 <= k <= v.len(),
        forall|j: int| 0 <= j < k ==> (#[trigger] v[j]).0 != "802-11-wireless"@ && v[j].0 != "802-3-ethernet"@,
        k < v.len() ==> v[k].0 == "802-11-wireless"@ || v[k].0 == "802-3-ethernet"@,
    ensures
        k == v.len() ==> first_state(v) is None,
        k < v.len() && v[k].0 == "802-11-wireless"@ ==> first_state(v) == Some((NetworkType::Wifi, Some(v[k].1))),
        k < v.len() && v[k].0 == "802-3-ethernet"@ ==> first_state(v) == Some(
            (NetworkType::Ethernet, None::<Seq<char>>),
        ),
{
    assert forall|j: int| 0 <= j < k implies connection_state((#[trigger] v[j]).0, v[j].1).0 is Disconnected by {
        law_connections_go_by_their_type(v[j].0, v[j].1);
    }
    if k < v.len() {
        law_connections_go_by_their_type(v[k].0, v[k].1);
    }
    lemma_first_state(v, k);
}

/// A line of the table for IPv4 is a default route where its destination is all zeros: its
/// first word is the interface, the fourth the flags in hexadecimal digits, the seventh the
/// metric in decimal ones.
pub proof fn law_route_is_read_from_its_columns(line: Seq<char>, w: Seq<Seq<char>>, flags: nat, metric: nat)
    requires
        text::words(line) == w,
        w.len() >= 7,
    ensures
        w[1] == "00000000"@ && text::parsed(w[3], 16, u32::MAX as nat) == Some(flags) && text::parsed(
            w[6],
            10,
            u32::MAX as nat,
        ) == Some(metric) ==> (route4(line) matches Some(r) && r.iface == w[0] && r.flags == flags && r.metric == metric),
        w[1] != "00000000"@ ==> route4(line) is None,
        text::parsed(w[3], 16, u32::MAX as nat) is None || text::parsed(w[6], 10, u32::MAX as nat) is None
            ==> route4(line) is None,
{
}

/// A line of the table for IPv6 is a default route where its destination is all zeros and its
/// prefix too, and it does not lead to the loopback interface: the sixth word is the metric and
/// the ninth the flags, in hexadecimal digits, the tenth the interface.
pub proof fn law_route6_is_read_from_its_columns(line: Seq<char>, w: Seq<Seq<char>>, flags: nat, metric: nat)
    requires
        text::words(line) == w,
        w.len() >= 10,
    ensures
        (forall|i: int| 0 <= i < w[0].len() ==> #[trigger] w[0][i] == '0') && w[1] == "00"@ && w[9] != "lo"@
            && text::parsed(w[8], 16, u32::MAX as nat) == Some(flags) && text::parsed(w[5], 16, u32::MAX as nat) == Some(
            metric,
        ) ==> (route6(line) matches Some(r) && r.iface == w[9] && r.flags == flags && r.metric == metric),
        (exists|i: int| 0 <= i < w[0].len() && #[trigger] w[0][i] != '0') || w[1] != "00"@ || w[9] == "lo"@ ==> route6(
            line,
        ) is None,
        text::parsed(w[8], 16, u32::MAX as nat) is None || text::parsed(w[5], 16, u32::MAX as nat) is None
            ==> route6(line) is None,
{
}

/// Short lines are no routes.
pub proof fn law_short_lines_are_no_routes(line: Seq<char>)
    ensures
        text::words(line).len() < 7 ==> route4(line) is None,
        text::words(line).len() < 10 ==> route6(line) is None,
{
}

/// A route takes the place of the best one if and only if it is up and its metric is lower.
pub proof fn law_better_route_is_up_and_lower(best: Option<(Seq<char>, nat)>, r: RouteModel)
    ensures
        r.flags % 2 == 1 && best is None ==> better_route(best, r) == Some((r.iface, r.metric)),
        best matches Some((_, m)) ==> (r.flags % 2 == 1 && r.metric < m ==> better_route(best, r) == Some(
            (r.iface, r.metric),
        )),
        best matches Some((_, m)) ==> (r.metric >= m ==> better_route(best, r) == best),
        r.flags % 2 == 0 ==> better_route(best, r) == best,
{
}

/// The table for IPv4 decides where it has a route, and that for IPv6 else. The heading of
/// the first is no route.
pub proof fn law_tables_decide_in_order(t4: Seq<char>, t6: Seq<char>, other: Option<Seq<char>>, route: (Seq<char>, nat))
    ensures
        text::lines_of(t4).len() > 0 && best_of(text::lines_of(t4).drop_first(), false) == Some(route) ==> default_route(
            Some(t4),
            other,
        ) == Some(route.0),
        text::lines_of(t4).len() > 0 && best_of(text::lines_of(t4).drop_first(), false) is None && best_of(
            text::lines_of(t6),
            true,
        ) == Some(route) ==> default_route(Some(t4), Some(t6)) == Some(route.0),
        best_of(text::lines_of(t6), true) == Some(route) ==> default_route(None, Some(t6)) == Some(route.0),
        default_route(None, None) is None,
{
}

/// The interface of the default route tells the kind of connection: by its name, else by what
/// the system says. A wireless one is told before a wired one, and a virtual one tells nothing.
pub proof fn law_default_interface_tells_the_kind(d: DefaultInterface)
    ensures
        is_virtual(d.name@) ==> kind_of(d) is None,
        !is_virtual(d.name@) && (text::begins(d.name@, "wl"@) || d.wireless) ==> kind_of(d) == Some(NetworkType::Wifi),
        !is_virtual(d.name@) && !text::begins(d.name@, "wl"@) && !d.wireless && (text::begins(d.name@, "en"@)
            || text::begins(d.name@, "eth"@) || d.device) ==> kind_of(d) == Some(NetworkType::Ethernet),
        !text::begins(d.name@, "wl"@) && !d.wireless && !text::begins(d.name@, "en"@) && !text::begins(d.name@, "eth"@)
            && !d.device ==> kind_of(d) is None,
{
}

/// An interface that is up tells the kind of connection by its name. One that is wired comes
/// before those that are wireless; what is down or virtual tells nothing.
pub proof fn law_wired_comes_before_wireless(links: Seq<Link>, i: int)
    requires
        0 <= i < links.len(),
        text::trimmed(links[i].operstate@) == "up"@,
        !is_virtual(links[i].name@),
    ensures
        text::begins(links[i].name@, "en"@) || text::begins(links[i].name@, "eth"@) ==> kind_by_links(links) == Some(
            NetworkType::Ethernet,
        ),
        text::begins(links[i].name@, "wl"@) && !text::begins(links[i].name@, "en"@) && !text::begins(
            links[i].name@,
            "eth"@,
        ) ==> kind_by_links(links) is Some,
{
    if text::begins(links[i].name@, "en"@) || text::begins(links[i].name@, "eth"@) {
        assert(wired_up(links[i]));
    } else if text::begins(links[i].name@, "wl"@) {
        assert(wireless_up(links[i]));
    }
}

/// Interfaces that are down, virtual or of another name tell nothing; without a wired one that
/// is up there is no wired connection.
pub proof fn law_interfaces_that_are_down_tell_nothing(links: Seq<Link>)
    ensures
        (forall|i: int|
            0 <= i < links.len() ==> text::trimmed((#[trigger] links[i]).operstate@) != "up"@ || is_virtual(
                links[i].name@,
            ) || !(text::begins(links[i].name@, "en"@) || text::begins(links[i].name@, "eth"@))) ==> kind_by_links(links)
            != Some(NetworkType::Ethernet),
        (forall|i: int|
            0 <= i < links.len() ==> text::trimmed((#[trigger] links[i]).operstate@) != "up"@ || is_virtual(
                links[i].name@,
            ) || !(text::begins(links[i].name@, "en"@) || text::begins(links[i].name@, "eth"@) || text::begins(
                links[i].name@,
                "wl"@,
            ))) ==> kind_by_links(links) is None,
        kind_by_links(links) != Some(NetworkType::Disconnected),
{
}

/// The network service decides; without it the interface of the default route; without that
/// the interfaces that are up; and without them there is no connection.
pub proof fn law_sources_decide_in_order(
    service: Option<(NetworkType, Option<Seq<char>>)>,
    d: Option<DefaultInterface>,
    links: Seq<Link>,
    readable: bool,
)
    ensures
        service matches Some(s) ==> full_state(service, d, links, readable) == (s, true),
        service is None && d is Some && kind_of(d->0) is Some ==> full_state(service, d, links, readable) == (
            (kind_of(d->0)->0, None::<Seq<char>>),
            true,
        ),
        service is None && (d is None || kind_of(d->0) is None) && kind_by_links(links) is Some ==> full_state(
            service,
            d,
            links,
            readable,
        ) == ((kind_by_links(links)->0, None::<Seq<char>>), true),
        service is None && (d is None || kind_of(d->0) is None) && kind_by_links(links) is None ==> full_state(
            service,
            d,
            links,
            readable,
        ) == ((NetworkType::Disconnected, None::<Seq<char>>), readable),
{
}

/// What is shown of the network is the text of its mode, with its name in place of the mark;
/// on hover the name of a wireless network, or the kind of connection.
pub proof fn law_network_is_shown_by_its_mode(c: NetworkConfig, kind: NetworkType, ssid: Option<Seq<char>>, r: ModuleState)
    requires
        r.model() == shown_state(c, kind, ssid),
    ensures
        r.icon is None,
        r.text is Some,
        r.tooltip is Some,
        r.css_classes@.len() == 1,
        kind is Wifi && ssid is Some ==> r.text->0@ == config::mode_text(c.modes@, "wifi"@, seq![("%s"@, ssid->0)])
            && r.tooltip->0@ == ssid->0,
        kind is Wifi && ssid is None ==> r.text->0@ == config::mode_text(c.modes@, "wifi"@, seq![("%s"@, "Wi-Fi"@)])
            && r.tooltip->0@ == "Wi-Fi"@,
        kind is Wifi ==> r.css_classes@[0]@ == "wifi"@,
        kind is Ethernet ==> r.text->0@ == config::mode_text(c.modes@, "lan"@, seq![("%s"@, "Ethernet"@)])
            && r.tooltip->0@ == "Ethernet"@ && r.css_classes@[0]@ == "ethernet"@,
        kind is Disconnected ==> r.text->0@ == config::mode_text(c.modes@, "disconnected"@, seq![("%s"@, "Off"@)])
            && r.tooltip->0@ == "Disconnected"@ && r.css_classes@[0]@ == "disconnected"@,
{
    assert(r.model().classes.len() == r.css_classes@.len());
    assert(r.model().classes[0] == r.css_classes@[0]@);
}

/// The module goes by its name, runs the commands of its section, and nothing by itself.
pub proof fn law_network_runs_its_commands(m: NetworkModule)
    ensures
        m.title() == "network"@,
        !m.acts_by_itself(),
        m.commands().0 == text::opt(m.config.click.on_click_left),
        m.commands().1 == text::opt(m.config.click.on_click_right),
        m.commands().2 == text::opt(m.config.click.on_click_middle),
{
}

/// Connections and routes stand for their words and numbers.
pub proof fn law_views_say_what_is_held(
    v: Seq<(String, String)>,
    name: String,
    metric: u32,
    state: NetworkState,
    i: int,
)
    ensures
        connection_views(v).len() == v.len(),
        0 <= i < v.len() ==> connection_views(v)[i].0 == v[i].0@ && connection_views(v)[i].1 == v[i].1@,
        route_view(None) is None,
        route_view(Some((name, metric))) == Some((name@, metric as nat)),
        opt_state(None) is None,
        opt_state(Some(state)) == Some((state.0, text::opt(state.1))),
{
}

} // verus!
