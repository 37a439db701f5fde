//! The state of the tray: which items are registered, what is known of them, and
//! how signals, owners and requests change it.
use async_channel::{Receiver, Sender};
use vstd::prelude::*;

use crate::icon::RawIconPixmap;
use crate::modules::tray::protocol;
use crate::modules::tray::protocol::{parse_icon_pixmap, parse_item_address, parse_tooltip, Variant};
use crate::modules::tray::types;
use crate::modules::tray::types::{
    ActivateRequest, RequestModel, TrayEvent, TrayItem, TrayItemMap, TrayItemSnapshot, TrayMenu, TrayTooltip,
};
use crate::names;
use crate::names::NameMap;
use crate::text;
use crate::util;
use crate::util::{keep_open, Delivery};

verus! {

// ---------------------------------------------------------------------------
// Registration
// ---------------------------------------------------------------------------

/// The items of the tray, and the keys under which items are registered with the
/// current connection.
#[derive(Debug)]
pub struct TrayService {
    pub items: TrayItemMap,
    pub registered: Vec<String>,
}

/// The key of an item that registers itself: the bus name of its sender, where that
/// is known, and its path.
pub open spec fn registration_key(service: Seq<char>, sender: Seq<char>) -> Seq<char> {
    let (bus, path, _) = protocol::address(service, Some(sender));
    if sender.len() > 0 {
        sender + path
    } else {
        bus + path
    }
}

/// The keys after one registers.
pub open spec fn registered_after(keys: Seq<Seq<char>>, key: Seq<char>) -> Seq<Seq<char>> {
    if keys.contains(key) {
        keys
    } else {
        keys.push(key)
    }
}

/// Registering a key again changes nothing, and no key is registered twice.
pub proof fn law_registered_once(keys: Seq<Seq<char>>, key: Seq<char>)
    requires
        keys.no_duplicates(),
    ensures
        registered_after(keys, key).contains(key),
        registered_after(keys, key).no_duplicates(),
        registered_after(registered_after(keys, key), key) == registered_after(keys, key),
{
    if !keys.contains(key) {
        let all = keys.push(key);
        assert(all[keys.len() as int] == key);
        assert forall|i: int, j: int| 0 <= i < all.len() && 0 <= j < all.len() && i != j implies all[i]
            != all[j] by {
            if i == keys.len() {
                assert(keys.contains(keys[j]));
            } else if j == keys.len() {
                assert(keys.contains(keys[i]));
            }
        }
    }
}

/// The bus name and the path of the item under a key; `None` where one of them is
/// empty.
pub fn tracked_address(key: &str) -> (r: Option<(String, String)>)
    ensures
        ({
            let (bus, path, _) = protocol::address(key@, None);
            match r {
                Some((b, p)) => b@ == bus && p@ == path && bus.len() > 0 && path.len() > 0,
                None => bus.len() == 0 || path.len() == 0,
            }
        }),
{
    let (bus, path, _) = parse_item_address(key, None);
    if bus.as_str().unicode_len() == 0 || path.as_str().unicode_len() == 0 {
        None
    } else {
        Some((bus, path))
    }
}

// ---------------------------------------------------------------------------
// Properties
// ---------------------------------------------------------------------------

/// The text under a name.
pub open spec fn text_prop(props: Map<Seq<char>, Variant>, name: Seq<char>) -> Option<Seq<char>> {
    if props.dom().contains(name) {
        match props[name] {
            Variant::Str(s) => Some(s@),
            _ => None,
        }
    } else {
        None
    }
}

/// A text, unless it is blank.
pub open spec fn filled(s: Option<Seq<char>>) -> Option<Seq<char>> {
    match s {
        Some(t) => if text::is_blank(t) {
            None
        } else {
            s
        },
        None => None,
    }
}

/// The item says that it is nothing but a menu.
pub open spec fn menu_flag(props: Map<Seq<char>, Variant>) -> bool {
    props.dom().contains("ItemIsMenu"@) && match props["ItemIsMenu"@] {
        Variant::Bool(b) => b,
        Variant::I32(n) => n != 0,
        Variant::U32(n) => n != 0,
        _ => false,
    }
}

/// The path of the menu that the item names, unless it stands for none.
pub open spec fn menu_path_prop(props: Map<Seq<char>, Variant>) -> Option<Seq<char>> {
    if props.dom().contains("Menu"@) {
        match props["Menu"@] {
            Variant::ObjectPath(p) => real_path(p@),
            Variant::Str(p) => real_path(p@),
            _ => None,
        }
    } else {
        None
    }
}

/// A path, unless it stands for none.
pub open spec fn real_path(p: Seq<char>) -> Option<Seq<char>> {
    if p.len() == 0 || p == "/NO_DBUSMENU"@ || p == "/"@ {
        None
    } else {
        Some(p)
    }
}

/// The item that properties describe.
pub open spec fn describes(props: Map<Seq<char>, Variant>, bus: Seq<char>, path: Seq<char>, item: TrayItem) -> bool {
    &&& item.bus_name@ == bus
    &&& item.object_path@ == path
    &&& item.id@ == (match text_prop(props, "Id"@) {
        Some(s) => s,
        None => bus,
    })
    &&& text::opt(item.title) == text_prop(props, "Title"@)
    &&& text::opt(item.icon_name) == filled(text_prop(props, "IconName"@))
    &&& text::opt(item.icon_theme_path) == filled(text_prop(props, "IconThemePath"@))
    &&& if props.dom().contains("IconPixmap"@) {
        protocol::are_icons(props["IconPixmap"@], item.icon_pixmap)
    } else {
        item.icon_pixmap is None
    }
    &&& protocol::tooltip_texts(item.tool_tip) == protocol::tooltip_in(props)
    &&& item.item_is_menu == menu_flag(props)
    &&& text::opt(item.menu_path) == menu_path_prop(props)
}

fn read_text(props: &NameMap<Variant>, name: &str) -> (r: Option<String>)
    ensures
        text::opt(r) == text_prop(props@, name@),
{
    match props.get(name) {
        Some(Variant::Str(s)) => Some(s.clone()),
        _ => None,
    }
}

fn read_filled(props: &NameMap<Variant>, name: &str) -> (r: Option<String>)
    ensures
        text::opt(r) == filled(text_prop(props@, name@)),
{
    match read_text(props, name) {
        Some(s) => {
            if text::blank(s.as_str()) {
                None
            } else {
                Some(s)
            }
        },
        None => None,
    }
}

fn read_path(p: &String) -> (r: Option<String>)
    ensures
        text::opt(r) == real_path(p@),
{
    if p.as_str().unicode_len() == 0 || text::same(p.as_str(), "/NO_DBUSMENU") || text::same(
        p.as_str(),
        "/",
    ) {
        None
    } else {
        Some(p.clone())
    }
}

/// The item that its properties describe.
pub fn item_from_properties(bus: &str, path: &str, props: &NameMap<Variant>) -> (item: TrayItem)
    ensures
        describes(props@, bus@, path@, item),
{
    let id: String = match read_text(props, "Id") {
        Some(s) => s,
        None => bus.to_owned(),
    };
    let icon_pixmap: Option<Vec<RawIconPixmap>> = match props.get("IconPixmap") {
        Some(v) => parse_icon_pixmap(v),
        None => None,
    };
    let tool_tip: Option<TrayTooltip> = parse_tooltip(props);
    let item_is_menu: bool = match props.get("ItemIsMenu") {
        Some(Variant::Bool(b)) => *b,
        Some(Variant::I32(n)) => *n != 0,
        Some(Variant::U32(n)) => *n != 0,
        _ => false,
    };
    let menu_path: Option<String> = match props.get("Menu") {
        Some(Variant::ObjectPath(p)) => read_path(p),
        Some(Variant::Str(p)) => read_path(p),
        _ => None,
    };
    TrayItem {
        bus_name: bus.to_owned(),
        object_path: path.to_owned(),
        id,
        title: read_text(props, "Title"),
        icon_name: read_filled(props, "IconName"),
        icon_theme_path: read_filled(props, "IconThemePath"),
        icon_pixmap,
        tool_tip,
        item_is_menu,
        menu_path,
    }
}

// ---------------------------------------------------------------------------
// Signals
// ---------------------------------------------------------------------------

/// Where a signal about an item comes from.
#[derive(Clone, Copy, Debug, PartialEq, Eq, Structural)]
pub enum SignalSource {
    Item,
    Properties,
    Menu,
}

/// What is read anew after a signal.
#[derive(Clone, Copy, Debug, PartialEq, Eq, Structural)]
pub enum SignalReaction {
    Nothing,
    RefreshItem,
    RefreshMenu,
}

/// What is read anew after a signal: the item after any of its own signals and after
/// a change of its properties, the menu after a change of its layout or entries.
pub open spec fn reaction_to(source: SignalSource, member: Seq<char>) -> SignalReaction {
    match source {
        SignalSource::Item => SignalReaction::RefreshItem,
        SignalSource::Properties => if member == "PropertiesChanged"@ {
            SignalReaction::RefreshItem
        } else {
            SignalReaction::Nothing
        },
        SignalSource::Menu => if member == "LayoutUpdated"@ || member == "ItemsPropertiesUpdated"@ {
            SignalReaction::RefreshMenu
        } else {
            SignalReaction::Nothing
        },
    }
}

/// What is read anew after a signal.
pub fn on_signal(source: SignalSource, member: &str) -> (r: SignalReaction)
    ensures
        r == reaction_to(source, member@),
{
    match source {
        SignalSource::Item => SignalReaction::RefreshItem,
        SignalSource::Properties => {
            if text::same(member, "PropertiesChanged") {
                SignalReaction::RefreshItem
            } else {
                SignalReaction::Nothing
            }
        },
        SignalSource::Menu => {
            if text::same(member, "LayoutUpdated") || text::same(member, "ItemsPropertiesUpdated") {
                SignalReaction::RefreshMenu
            } else {
                SignalReaction::Nothing
            }
        },
    }
}

// ---------------------------------------------------------------------------
// Owners
// ---------------------------------------------------------------------------

/// A key is that of an item of a bus name: the name itself, or the name and a path.
pub open spec fn key_of(key: Seq<char>, bus: Seq<char>) -> bool {
    key == bus || text::begins(key, bus + "/"@)
}

/// An item belongs to an owner that is gone.
pub open spec fn belongs(item_bus: Seq<char>, key: Seq<char>, name: Seq<char>, owner: Seq<char>) -> bool {
    item_bus == name || item_bus == owner || key_of(key, name) || key_of(key, owner)
}

fn is_key_of(key: &str, bus: &str) -> (r: bool)
    ensures
        r == key_of(key@, bus@),
{
    text::same(key, bus) || text::starts_with(key, text::concat(bus, "/").as_str())
}

/// Whether an item belongs to an owner that is gone: `name` is the name that lost
/// its owner, `old_owner` the owner that it had.
pub fn belongs_to_disconnected_owner(
    item_bus: &str,
    key: &str,
    name: &str,
    old_owner: &str,
) -> (r: bool)
    ensures
        r == belongs(item_bus@, key@, name@, old_owner@),
{
    text::same(item_bus, name) || text::same(item_bus, old_owner) || is_key_of(key, name) || is_key_of(
        key,
        old_owner,
    )
}

/// Whether a bus name is worth asking for items. Names of the desktop's own services
/// are not.
pub fn is_probe_candidate(name: &str) -> (r: bool)
    ensures
        r == !(text::begins(name@, "org.freedesktop."@) || text::begins(name@, "org.kde."@)),
{
    !(text::starts_with(name, "org.freedesktop.") || text::starts_with(name, "org.kde."))
}

/// The keys of the items that go with an owner.
pub open spec fn gone_keys(
    items: Map<Seq<char>, (TrayItem, Option<TrayMenu>)>,
    name: Seq<char>,
    owner: Seq<char>,
) -> Set<Seq<char>> {
    Set::new(|k: Seq<char>| items.dom().contains(k) && belongs(items[k].0.bus_name@, k, name, owner))
}

/// What follows from a change of a name's owner.
#[derive(Debug)]
pub enum OwnerChange {
    Nothing,
    /// The owner is gone, and with it the items under these keys.
    Gone(Vec<String>),
    /// The owner is new, and may have items.
    Probe,
}

/// Every key that the list holds is in the set, once, and every key of the set is
/// in the list.
pub open spec fn lists(v: Seq<Seq<char>>, set: Set<Seq<char>>) -> bool {
    v.no_duplicates() && forall|k: Seq<char>| #[trigger] v.contains(k) == set.contains(k)
}

/// Every message says the same.
pub open spec fn all_say(messages: Seq<TrayEvent>, what: types::EventModel) -> bool {
    forall|i: int| 0 <= i < messages.len() ==> (#[trigger] messages[i]).model() == what
}

/// So many messages that tell of an event.
pub fn messages_of(ev: &TrayEvent, n: usize) -> (r: Vec<TrayEvent>)
    ensures
        r@.len() == n,
        all_say(r@, ev.model()),
{
    let mut messages: Vec<TrayEvent> = Vec::new();
    while messages.len() < n
        invariant
            messages@.len() <= n,
            all_say(messages@, ev.model()),
        decreases n - messages@.len(),
    {
        messages.push(ev.clone());
    }
    messages
}

/// What becomes of messages that are put into channels, each into the one at its own
/// place.
fn deliver_messages(subscribers: &Vec<Sender<TrayEvent>>, messages: Vec<TrayEvent>) -> (r: Vec<Delivery>)
    requires
        messages@.len() == subscribers@.len(),
    ensures
        r@.len() == subscribers@.len(),
{
    let mut deliveries: Vec<Delivery> = Vec::new();
    let mut left: Vec<TrayEvent> = messages;
    let mut i: usize = 0;
    while i < subscribers.len()
        invariant
            i <= subscribers@.len(),
            left@ == messages@.skip(i as int),
            messages@.len() == subscribers@.len(),
            deliveries@.len() == i,
        decreases subscribers@.len() - i,
    {
        let message: TrayEvent = left.remove(0);
        assert(message == messages@[i as int]);
        deliveries.push(util::deliver(&subscribers[i], message));
        assert(left@ =~= messages@.skip(i + 1));
        i = i + 1;
    }
    deliveries
}

impl TrayService {
    /// A tray without items.
    pub fn new() -> (r: Self)
        ensures
            r.items@ == Map::<Seq<char>, (TrayItem, Option<TrayMenu>)>::empty(),
            r.registered@.len() == 0,
    {
        TrayService { items: NameMap::new(), registered: Vec::new() }
    }

    /// A new connection to the bus: the items stay, and none is registered.
    pub fn start_session(&mut self)
        ensures
            final(self).items == old(self).items,
            final(self).registered@.len() == 0,
    {
        self.registered = Vec::new();
    }

    /// The item under a key, and its menu.
    pub fn get_item_and_menu(&self, key: &str) -> (r: (Option<&TrayItem>, Option<&TrayMenu>))
        ensures
            self.items@.dom().contains(key@) ==> r.0 == Some(&self.items@[key@].0) && match r.1 {
                Some(m) => self.items@[key@].1 == Some(*m),
                None => self.items@[key@].1 is None,
            },
            !self.items@.dom().contains(key@) ==> r.0 is None && r.1 is None,
    {
        match self.items.get(key) {
            Some(pair) => (
                Some(&pair.0),
                match &pair.1 {
                    Some(m) => Some(m),
                    None => None,
                },
            ),
            None => (None, None),
        }
    }

    /// Adds a subscriber with the two ends of its channel: the one that the events are put
    /// into is kept, the other is handed out.
    pub fn add_subscriber(
        subscribers: &mut Vec<Sender<TrayEvent>>,
        tx: Sender<TrayEvent>,
        rx: Receiver<TrayEvent>,
    ) -> (r: Receiver<TrayEvent>)
        ensures
            final(subscribers)@ == old(subscribers)@.push(tx),
            r == rx,
    {
        subscribers.push(tx);
        rx
    }

    /// The end of a new channel on which the events of the tray come from now on, and
    /// the items that the tray holds now.
    pub fn subscribe(&self, subscribers: &mut Vec<Sender<TrayEvent>>) -> (r: (
        Receiver<TrayEvent>,
        Vec<TrayItemSnapshot>,
    ))
        ensures
            exists|tx: Sender<TrayEvent>| final(subscribers)@ == #[trigger] old(subscribers)@.push(tx),
            r.1@.len() == self.items.entries().len(),
            forall|i: int|
                0 <= i < r.1@.len() ==> {
                    let (key, item, menu) = #[trigger] r.1@[i];
                    let entry = self.items.entries()[i];
                    &&& key@ == entry.0@
                    &&& item.model() == entry.1.0.model()
                    &&& types::opt_menu(menu) == types::opt_menu(entry.1.1)
                },
    {
        let (tx, rx) = async_channel::unbounded();
        let n: usize = self.items.len();
        let mut now: Vec<TrayItemSnapshot> = Vec::new();
        let mut i: usize = 0;
        while i < n
            invariant
                n == self.items.entries().len(),
                i <= n,
                now@.len() == i,
                forall|k: int|
                    0 <= k < i ==> {
                        let (key, item, menu) = #[trigger] now@[k];
                        let entry = self.items.entries()[k];
                        &&& key@ == entry.0@
                        &&& item.model() == entry.1.0.model()
                        &&& types::opt_menu(menu) == types::opt_menu(entry.1.1)
                    },
            decreases n - i,
        {
            let entry: &(TrayItem, Option<TrayMenu>) = self.items.value_at(i);
            let menu: Option<TrayMenu> = match &entry.1 {
                Some(m) => Some(m.clone()),
                None => None,
            };
            now.push((self.items.name_at(i).clone(), entry.0.clone(), menu));
            i = i + 1;
        }
        (TrayService::add_subscriber(subscribers, tx, rx), now)
    }

    /// Tells all subscribers of an event, and forgets those whose channel is closed. What
    /// became of each message is for the channels to say.
    pub fn broadcast(subscribers: &mut Vec<Sender<TrayEvent>>, ev: &TrayEvent)
        ensures
            exists|messages: Seq<TrayEvent>, deliveries: Seq<Delivery>|
                #[trigger] all_say(messages, ev.model()) && messages.len() == old(subscribers)@.len()
                    && deliveries.len() == old(subscribers)@.len() && final(subscribers)@
                    == #[trigger] util::still_open(old(subscribers)@, deliveries),
    {
        let messages: Vec<TrayEvent> = messages_of(ev, subscribers.len());
        let ghost made: Seq<TrayEvent> = messages@;
        let deliveries: Vec<Delivery> = deliver_messages(subscribers, messages);
        assert(all_say(made, ev.model()));
        keep_open(subscribers, &deliveries);
    }

    /// Registers a key. Says whether it is new.
    pub fn register_key(&mut self, key: &str) -> (r: bool)
        ensures
            r == !text::strs(old(self).registered@).contains(key@),
            text::strs(final(self).registered@) == registered_after(
                text::strs(old(self).registered@),
                key@,
            ),
            final(self).items == old(self).items,
    {
        if text::list_has(&self.registered, key) {
            return false;
        }
        let ghost before: Seq<String> = self.registered@;
        self.registered.push(key.to_owned());
        assert(text::strs(self.registered@) =~= text::strs(before).push(key@));
        true
    }

    /// An item registers itself. Returns its key where it is new.
    pub fn register(&mut self, service: &str, sender: &str) -> (r: Option<String>)
        ensures
            match r {
                Some(k) => k@ == registration_key(service@, sender@) && !text::strs(
                    old(self).registered@,
                ).contains(k@),
                None => text::strs(old(self).registered@).contains(
                    registration_key(service@, sender@),
                ),
            },
            text::strs(final(self).registered@) == registered_after(
                text::strs(old(self).registered@),
                registration_key(service@, sender@),
            ),
            final(self).items == old(self).items,
    {
        let (bus, path, _) = parse_item_address(service, Some(sender));
        let key: String = if sender.unicode_len() > 0 {
            text::concat(sender, path.as_str())
        } else {
            text::concat(bus.as_str(), path.as_str())
        };
        if self.register_key(key.as_str()) {
            Some(key)
        } else {
            None
        }
    }

    /// An item was found at a path of a bus name. Returns its key where it is new.
    pub fn discover(&mut self, bus: &str, path: &str) -> (r: Option<String>)
        ensures
            match r {
                Some(k) => k@ == bus@ + path@ && !text::strs(old(self).registered@).contains(k@),
                None => text::strs(old(self).registered@).contains(bus@ + path@),
            },
            text::strs(final(self).registered@) == registered_after(
                text::strs(old(self).registered@),
                bus@ + path@,
            ),
            final(self).items == old(self).items,
    {
        let key: String = text::concat(bus, path);
        if self.register_key(key.as_str()) {
            Some(key)
        } else {
            None
        }
    }

    /// An item was read for the first time.
    pub fn track(&mut self, key: String, item: TrayItem, menu: Option<TrayMenu>)
        ensures
            final(self).items@ == old(self).items@.insert(key@, (item, menu)),
            final(self).registered == old(self).registered,
    {
        self.items.insert(key, (item, menu));
    }

    /// An item was read anew. Its menu stays. An item that is not in the tray stays
    /// out.
    pub fn refresh_item(&mut self, key: &str, item: TrayItem)
        ensures
            final(self).items@ == (if old(self).items@.dom().contains(key@) {
                old(self).items@.insert(key@, (item, old(self).items@[key@].1))
            } else {
                old(self).items@
            }),
            final(self).registered == old(self).registered,
    {
        match self.items.remove(key) {
            Some(pair) => {
                self.items.insert(key.to_owned(), (item, pair.1));
                assert(self.items@ =~= old(self).items@.insert(key@, (item, pair.1)));
            },
            None => {
                assert(self.items@ =~= old(self).items@);
            },
        }
    }

    /// The path of the menu that is read anew for an item.
    pub fn menu_path_of(&self, key: &str) -> (r: Option<String>)
        ensures
            text::opt(r) == (if self.items@.dom().contains(key@) {
                text::opt(self.items@[key@].0.menu_path)
            } else {
                None
            }),
    {
        match self.items.get(key) {
            Some(pair) => text::copy_opt(&pair.0.menu_path),
            None => None,
        }
    }

    /// A menu was read anew, or could not be. Says whether to try once more later:
    /// after the first failure, not after the second.
    pub fn menu_fetched(&mut self, key: &str, menu: Option<TrayMenu>, retried: bool) -> (r: bool)
        ensures
            r == (menu is None && !retried),
            final(self).items@ == (if menu is Some && old(self).items@.dom().contains(key@) {
                old(self).items@.insert(key@, (old(self).items@[key@].0, menu))
            } else {
                old(self).items@
            }),
            final(self).registered == old(self).registered,
    {
        match menu {
            Some(m) => {
                match self.items.remove(key) {
                    Some(pair) => {
                        self.items.insert(key.to_owned(), (pair.0, Some(m)));
                        assert(self.items@ =~= old(self).items@.insert(key@, (pair.0, Some(m))));
                    },
                    None => {
                        assert(self.items@ =~= old(self).items@);
                    },
                }
                false
            },
            None => !retried,
        }
    }

    /// Takes an item out: its bus name has no owner.
    pub fn drop_item(&mut self, key: &str) -> (r: bool)
        ensures
            r == old(self).items@.dom().contains(key@),
            final(self).items@ == old(self).items@.remove(key@),
            text::strs(final(self).registered@) == text::strs(old(self).registered@).filter(
                text::not_in(seq![key@]),
            ),
    {
        let mut one: Vec<String> = Vec::new();
        one.push(key.to_owned());
        assert(text::strs(one@) =~= seq![key@]);
        self.registered = text::others(&self.registered, &one);
        self.items.remove(key).is_some()
    }

    fn keys_of_owner(&self, name: &str, owner: &str) -> (r: Vec<String>)
        ensures
            lists(text::strs(r@), gone_keys(self.items@, name@, owner@)),
    {
        let ghost e: Seq<(String, (TrayItem, Option<TrayMenu>))> = self.items.entries();
        let ghost set: Set<Seq<char>> = gone_keys(self.items@, name@, owner@);
        let mut r: Vec<String> = Vec::new();
        let n: usize = self.items.len();
        let mut i: usize = 0;
        while i < n
            invariant
                e == self.items.entries(),
                names::distinct(e),
                self.items@ == names::map_of(e),
                set == gone_keys(self.items@, name@, owner@),
                n == e.len(),
                i <= n,
                text::strs(r@).no_duplicates(),
                forall|k: Seq<char>| #[trigger]
                    text::strs(r@).contains(k) ==> set.contains(k) && exists|j: int|
                        0 <= j < i && (#[trigger] e[j]).0@ == k,
                forall|j: int|
                    0 <= j < i && set.contains((#[trigger] e[j]).0@) ==> text::strs(r@).contains(e[j].0@),
            decreases n - i,
        {
            let key: &String = self.items.name_at(i);
            let pair: &(TrayItem, Option<TrayMenu>) = self.items.value_at(i);
            proof {
                names::lemma_entry(e, i as int);
            }
            if belongs_to_disconnected_owner(pair.0.bus_name.as_str(), key.as_str(), name, owner) {
                let ghost before: Seq<Seq<char>> = text::strs(r@);
                r.push(key.clone());
                proof {
                    let after = text::strs(r@);
                    assert(after =~= before.push(key@));
                    assert(!before.contains(key@)) by {
                        if before.contains(key@) {
                            let j = choose|j: int| 0 <= j < i && (#[trigger] e[j]).0@ == key@;
                            assert(e[j].0@ != e[i as int].0@);
                        }
                    }
                    assert forall|k: Seq<char>| #[trigger] after.contains(k) implies set.contains(k)
                        && exists|j: int| 0 <= j < i + 1 && (#[trigger] e[j]).0@ == k by {
                        if k == key@ {
                            assert(e[i as int].0@ == k);
                        } else {
                            let p = choose|p: int| 0 <= p < after.len() && after[p] == k;
                            assert(before[p] == k);
                            assert(before.contains(k));
                        }
                    }
                    assert forall|j: int|
                        0 <= j < i + 1 && set.contains((#[trigger] e[j]).0@) implies after.contains(
                        e[j].0@,
                    ) by {
                        if j < i {
                            assert(before.contains(e[j].0@));
                            let p = choose|p: int| 0 <= p < before.len() && before[p] == e[j].0@;
                            assert(after[p] == e[j].0@);
                        } else {
                            assert(after[before.len() as int] == key@);
                        }
                    }
                    assert forall|a: int, b: int|
                        0 <= a < after.len() && 0 <= b < after.len() && a != b implies after[a]
                        != after[b] by {
                        if a == before.len() {
                            assert(before.contains(before[b]));
                        } else if b == before.len() {
                            assert(before.contains(before[a]));
                        }
                    }
                }
            }
            i = i + 1;
        }
        proof {
            assert forall|k: Seq<char>| #[trigger] text::strs(r@).contains(k) == set.contains(k) by {
                if set.contains(k) {
                    names::lemma_named(e, k);
                    assert(e[names::position(e, k)].0@ == k);
                }
            }
        }
        r
    }

    /// A name changed its owner; an empty owner stands for none. The items of an
    /// owner that is gone are taken out.
    pub fn owner_changed(&mut self, name: &str, old_owner: &str, new_owner: &str) -> (r: OwnerChange)
        ensures
            if old_owner@.len() > 0 && new_owner@.len() == 0 {
                let gone = gone_keys(old(self).items@, name@, old_owner@);
                &&& r matches OwnerChange::Gone(keys) && lists(text::strs(keys@), gone)
                &&& final(self).items@ == old(self).items@.remove_keys(gone)
                &&& text::strs(final(self).registered@) == text::strs(old(self).registered@).filter(
                    |k: Seq<char>| !gone.contains(k),
                )
            } else {
                &&& final(self).items == old(self).items
                &&& final(self).registered == old(self).registered
                &&& if old_owner@.len() == 0 && new_owner@.len() > 0 && !(text::begins(
                    name@,
                    "org.freedesktop."@,
                ) || text::begins(name@, "org.kde."@)) {
                    r is Probe
                } else {
                    r is Nothing
                }
            },
    {
        let had: bool = old_owner.unicode_len() > 0;
        let owned: bool = new_owner.unicode_len() > 0;
        if had && !owned {
            let keys: Vec<String> = self.keys_of_owner(name, old_owner);
            let ghost gone: Set<Seq<char>> = gone_keys(self.items@, name@, old_owner@);
            let ghost before: Map<Seq<char>, (TrayItem, Option<TrayMenu>)> = self.items@;
            let ghost listed: Seq<Seq<char>> = text::strs(keys@);
            self.registered = text::others(&self.registered, &keys);
            proof {
                assert(text::not_in(listed) =~= (|k: Seq<char>| !gone.contains(k)));
            }
            let mut i: usize = 0;
            assert(self.items@ =~= before.remove_keys(listed.take(0).to_set()));
            while i < keys.len()
                invariant
                    i <= keys@.len(),
                    listed == text::strs(keys@),
                    self.items@ == before.remove_keys(listed.take(i as int).to_set()),
                    text::strs(self.registered@) == text::strs(old(self).registered@).filter(
                        |k: Seq<char>| !gone.contains(k),
                    ),
                    before == old(self).items@,
                    gone == gone_keys(before, name@, old_owner@),
                    lists(listed, gone),
                decreases keys@.len() - i,
            {
                self.items.remove(keys[i].as_str());
                proof {
                    let a = listed.take(i as int);
                    let b = listed.take(i + 1);
                    assert(b =~= a.push(listed[i as int]));
                    assert forall|k: Seq<char>| b.to_set().contains(k) == a.to_set().insert(
                        listed[i as int],
                    ).contains(k) by {
                        if b.contains(k) {
                            let p = choose|p: int| 0 <= p < b.len() && b[p] == k;
                            if p < i {
                                assert(a[p] == k);
                            }
                        }
                        if a.contains(k) {
                            let p = choose|p: int| 0 <= p < a.len() && a[p] == k;
                            assert(b[p] == k);
                        }
                        assert(b[i as int] == listed[i as int]);
                    }
                    assert(self.items@ =~= before.remove_keys(b.to_set()));
                }
                i = i + 1;
            }
            proof {
                assert(listed.take(i as int) =~= listed);
                assert(listed.to_set() =~= gone);
            }
            OwnerChange::Gone(keys)
        } else if !had && owned && is_probe_candidate(name) {
            OwnerChange::Probe
        } else {
            OwnerChange::Nothing
        }
    }
}

/// After an owner is gone, no item of its is left, and every other item is.
pub proof fn law_only_items_of_the_owner_go(
    items: Map<Seq<char>, (TrayItem, Option<TrayMenu>)>,
    name: Seq<char>,
    owner: Seq<char>,
    key: Seq<char>,
)
    requires
        items.dom().contains(key),
    ensures
        items.remove_keys(gone_keys(items, name, owner)).dom().contains(key) == !belongs(
            items[key].0.bus_name@,
            key,
            name,
            owner,
        ),
        items.remove_keys(gone_keys(items, name, owner)).dom().contains(key) ==> items.remove_keys(
            gone_keys(items, name, owner),
        )[key] == items[key],
{
}

/// A bus name holds no slash.
pub open spec fn plain_name(bus: Seq<char>) -> bool {
    forall|i: int| 0 <= i < bus.len() ==> #[trigger] bus[i] != '/'
}

/// The key of one bus name's item is not that of another's, though one name begins with
/// the other.
proof fn lemma_key_of_one(bus: Seq<char>, path: Seq<char>, name: Seq<char>)
    requires
        plain_name(bus),
        plain_name(name),
        path.len() > 0,
        path[0] == '/',
        key_of(bus + path, name),
    ensures
        bus == name,
{
    reveal_strlit("/");
    let key = bus + path;
    assert(key[bus.len() as int] == '/');
    if key == name {
        assert(name[bus.len() as int] == '/');
    } else {
        let start = name + "/"@;
        assert(start[name.len() as int] == '/');
        assert(key.take(start.len() as int) == start);
        assert forall|i: int| 0 <= i < start.len() implies #[trigger] key[i] == start[i] by {
            assert(key.take(start.len() as int)[i] == key[i]);
        }
        assert(key[name.len() as int] == '/');
        if name.len() < bus.len() {
            assert(bus[name.len() as int] == '/');
        } else if bus.len() < name.len() {
            assert(name[bus.len() as int] == '/');
        }
        assert(bus =~= name) by {
            assert forall|i: int| 0 <= i < bus.len() implies bus[i] == name[i] by {
                assert(key[i] == start[i]);
            }
        }
    }
}

/// An owner that is gone takes no item of another bus name with it, whatever the names
/// have in common.
pub proof fn law_items_of_others_stay(
    items: Map<Seq<char>, (TrayItem, Option<TrayMenu>)>,
    name: Seq<char>,
    owner: Seq<char>,
    path: Seq<char>,
    key: Seq<char>,
)
    requires
        items.dom().contains(key),
        key == items[key].0.bus_name@ + path,
        path.len() > 0,
        path[0] == '/',
        plain_name(items[key].0.bus_name@),
        plain_name(name),
        plain_name(owner),
        items[key].0.bus_name@ != name,
        items[key].0.bus_name@ != owner,
    ensures
        items.remove_keys(gone_keys(items, name, owner)).dom().contains(key),
{
    let bus = items[key].0.bus_name@;
    if key_of(key, name) {
        lemma_key_of_one(bus, path, name);
    }
    if key_of(key, owner) {
        lemma_key_of_one(bus, path, owner);
    }
}

// ---------------------------------------------------------------------------
// Probing
// ---------------------------------------------------------------------------

/// The path of the item that a line names as a child.
pub open spec fn child_in(line: Seq<char>) -> Option<Seq<char>> {
    match text::after(line, "<node name=\""@) {
        Some(rest) => {
            let e = text::char_from(rest, '"', 0);
            if 0 < e < rest.len() {
                Some("/org/ayatana/NotificationItem/"@ + rest.take(e))
            } else {
                None
            }
        },
        None => None,
    }
}

/// The paths that lines name.
pub open spec fn children_in(lines: Seq<Seq<char>>) -> Seq<Seq<char>>
    decreases lines.len(),
{
    if lines.len() == 0 {
        Seq::empty()
    } else {
        match child_in(lines.last()) {
            Some(p) => children_in(lines.drop_last()).push(p),
            None => children_in(lines.drop_last()),
        }
    }
}

fn read_child(line: &str) -> (r: Option<String>)
    ensures
        text::opt(r) == child_in(line@),
{
    match text::text_after(line, "<node name=\"") {
        Some(rest) => {
            proof {
                text::lemma_char_from(rest@, '"', 0);
            }
            match text::split_once(rest.as_str(), '"') {
                Some((name, _)) => {
                    assert(rest@.contains('"'));
                    if name.as_str().unicode_len() == 0 {
                        None
                    } else {
                        Some(text::concat("/org/ayatana/NotificationItem/", name.as_str()))
                    }
                },
                None => None,
            }
        },
        None => None,
    }
}

/// The paths of the items that an introspection document names as children.
pub fn parse_ayatana_children(xml: &str) -> (r: Vec<String>)
    ensures
        text::strs(r@) == children_in(text::lines_of(xml@)),
{
    let lines: Vec<String> = text::lines(xml);
    let ghost all: Seq<Seq<char>> = text::strs(lines@);
    let mut r: Vec<String> = Vec::new();
    let mut i: usize = 0;
    assert(text::strs(r@) =~= Seq::empty());
    assert(all.take(0) =~= Seq::empty());
    while i < lines.len()
        invariant
            i <= lines@.len(),
            all == text::strs(lines@),
            text::strs(r@) == children_in(all.take(i as int)),
        decreases lines@.len() - i,
    {
        assert(all.take(i + 1).drop_last() =~= all.take(i as int));
        assert(all.take(i + 1).last() == lines@[i as int]@);
        if let Some(p) = read_child(lines[i].as_str()) {
            let ghost before: Seq<String> = r@;
            r.push(p);
            assert(text::strs(r@) =~= text::strs(before).push(p@));
        }
        i = i + 1;
    }
    assert(all.take(i as int) =~= all);
    r
}

/// The interfaces whose properties an item may have, in the order in which they are
/// asked for until one gives any.
pub fn item_interfaces() -> (r: Vec<String>)
    ensures
        text::strs(r@) == seq!["org.kde.StatusNotifierItem"@, "org.freedesktop.StatusNotifierItem"@],
{
    let r: Vec<String> = vec![
        "org.kde.StatusNotifierItem".to_owned(),
        "org.freedesktop.StatusNotifierItem".to_owned(),
    ];
    assert(text::strs(r@) =~= seq!["org.kde.StatusNotifierItem"@, "org.freedesktop.StatusNotifierItem"@]);
    r
}

/// The interfaces and properties that are asked for at a path, in order, to see whether
/// there is an item: there is one where any is answered.
pub open spec fn questions() -> Seq<(Seq<char>, Seq<char>)> {
    seq![
        ("org.kde.StatusNotifierItem"@, "Id"@),
        ("org.freedesktop.StatusNotifierItem"@, "Id"@),
        ("org.kde.StatusNotifierItem"@, "Status"@),
    ]
}

/// The interfaces and properties that are asked for at a path.
pub fn probe_questions() -> (r: Vec<(String, String)>)
    ensures
        r@.map_values(|q: (String, String)| (q.0@, q.1@)) == questions(),
{
    let r: Vec<(String, String)> = vec![
        ("org.kde.StatusNotifierItem".to_owned(), "Id".to_owned()),
        ("org.freedesktop.StatusNotifierItem".to_owned(), "Id".to_owned()),
        ("org.kde.StatusNotifierItem".to_owned(), "Status".to_owned()),
    ];
    assert(r@.map_values(|q: (String, String)| (q.0@, q.1@)) =~= questions());
    r
}

/// The paths at which a bus name may have an item: the usual ones, then those of its
/// children.
pub fn candidate_sni_paths(ayatana_children: &[String]) -> (r: Vec<String>)
    ensures
        text::strs(r@) == seq![
            "/StatusNotifierItem"@,
            "/org/ayatana/NotificationItem/steam"@,
            "/MenuBar"@,
        ] + text::strs(ayatana_children@),
{
    let mut r: Vec<String> = Vec::new();
    r.push("/StatusNotifierItem".to_owned());
    r.push("/org/ayatana/NotificationItem/steam".to_owned());
    r.push("/MenuBar".to_owned());
    let ghost usual: Seq<Seq<char>> = text::strs(r@);
    let ghost all: Seq<Seq<char>> = text::strs(ayatana_children@);
    let mut i: usize = 0;
    assert(text::strs(r@) =~= usual + all.take(0));
    while i < ayatana_children.len()
        invariant
            i <= ayatana_children@.len(),
            all == text::strs(ayatana_children@),
            text::strs(r@) == usual + all.take(i as int),
        decreases ayatana_children@.len() - i,
    {
        let ghost before: Seq<String> = r@;
        r.push(ayatana_children[i].clone());
        assert(text::strs(r@) =~= text::strs(before).push(ayatana_children@[i as int]@));
        assert(usual + all.take(i + 1) =~= (usual + all.take(i as int)).push(all[i as int]));
        i = i + 1;
    }
    assert(all.take(i as int) =~= all);
    assert(usual =~= seq![
        "/StatusNotifierItem"@,
        "/org/ayatana/NotificationItem/steam"@,
        "/MenuBar"@,
    ]);
    r
}

// ---------------------------------------------------------------------------
// Requests
// ---------------------------------------------------------------------------

/// The arguments of a call.
#[derive(Clone, Debug, PartialEq, Eq)]
pub enum CallArgs {
    Place(i32, i32),
    Time(u32),
    Scroll(i32, String),
    /// A click on the menu entry with this id, at this time.
    Clicked(i32, u32),
    Id(i32),
}

/// A call on the bus.
#[derive(Clone, Debug, PartialEq, Eq)]
pub struct BusCall {
    pub bus: String,
    pub path: String,
    pub interface: String,
    pub method: String,
    pub args: CallArgs,
}

/// What arguments say.
pub ghost enum ArgsModel {
    Place(i32, i32),
    Time(u32),
    Scroll(i32, Seq<char>),
    Clicked(i32, u32),
    Id(i32),
}

/// What a call says.
pub ghost struct CallModel {
    pub bus: Seq<char>,
    pub path: Seq<char>,
    pub interface: Seq<char>,
    pub method: Seq<char>,
    pub args: ArgsModel,
}

impl CallArgs {
    /// What these arguments say.
    pub open spec fn model(self) -> ArgsModel {
        match self {
            CallArgs::Place(x, y) => ArgsModel::Place(x, y),
            CallArgs::Time(t) => ArgsModel::Time(t),
            CallArgs::Scroll(d, o) => ArgsModel::Scroll(d, o@),
            CallArgs::Clicked(id, t) => ArgsModel::Clicked(id, t),
            CallArgs::Id(id) => ArgsModel::Id(id),
        }
    }
}

impl BusCall {
    /// What this call says.
    pub open spec fn model(self) -> CallModel {
        CallModel {
            bus: self.bus@,
            path: self.path@,
            interface: self.interface@,
            method: self.method@,
            args: self.args.model(),
        }
    }
}

/// The call of a method of an item.
pub open spec fn item_call(bus: Seq<char>, path: Seq<char>, method: Seq<char>, args: ArgsModel) -> CallModel {
    CallModel { bus, path, interface: "org.kde.StatusNotifierItem"@, method, args }
}

/// The call of a method of a menu.
pub open spec fn menu_call(bus: Seq<char>, path: Seq<char>, method: Seq<char>, args: ArgsModel) -> CallModel {
    CallModel { bus, path, interface: "com.canonical.dbusmenu"@, method, args }
}

/// The call that a request asks for, and the one that is made where it fails.
pub open spec fn calls_for(req: RequestModel, now: u32) -> (CallModel, Option<CallModel>) {
    match req {
        RequestModel::Default { bus, path, x, y } => (
            item_call(bus, path, "Activate"@, ArgsModel::Place(x, y)),
            Some(
                CallModel {
                    bus,
                    path,
                    interface: "org.freedesktop.StatusNotifierItem"@,
                    method: "Activate"@,
                    args: ArgsModel::Place(x, y),
                },
            ),
        ),
        RequestModel::Secondary { bus, path, x, y } => (
            item_call(bus, path, "SecondaryActivate"@, ArgsModel::Place(x, y)),
            Some(item_call(bus, path, "XAyatanaSecondaryActivate"@, ArgsModel::Time(0))),
        ),
        RequestModel::ContextMenu { bus, path, x, y } => (
            item_call(bus, path, "ContextMenu"@, ArgsModel::Place(x, y)),
            Some(item_call(bus, path, "SecondaryActivate"@, ArgsModel::Place(x, y))),
        ),
        RequestModel::Scroll { bus, path, delta, orientation } => (
            item_call(bus, path, "Scroll"@, ArgsModel::Scroll(delta, orientation)),
            None,
        ),
        RequestModel::MenuItem { bus, menu, id } => (
            menu_call(bus, menu, "Event"@, ArgsModel::Clicked(id, now)),
            None,
        ),
        RequestModel::AboutToShow { bus, menu, id } => (
            menu_call(bus, menu, "AboutToShow"@, ArgsModel::Id(id)),
            None,
        ),
    }
}

fn call(bus: &String, path: &String, interface: &str, method: &str, args: CallArgs) -> (r: BusCall)
    ensures
        r.model() == (CallModel {
            bus: bus@,
            path: path@,
            interface: interface@,
            method: method@,
            args: args.model(),
        }),
{
    BusCall {
        bus: bus.clone(),
        path: path.clone(),
        interface: interface.to_owned(),
        method: method.to_owned(),
        args,
    }
}

/// The call that a request asks for, and the one that is made where it fails. `now`
/// is the time in seconds.
pub fn plan_request(req: &ActivateRequest, now: u32) -> (r: (BusCall, Option<BusCall>))
    ensures
        ({
            let want = calls_for(req.model(), now);
            r.0.model() == want.0 && match r.1 {
                Some(c) => want.1 == Some(c.model()),
                None => want.1 is None,
            }
        }),
{
    let kde: &str = "org.kde.StatusNotifierItem";
    let fdo: &str = "org.freedesktop.StatusNotifierItem";
    let menu: &str = "com.canonical.dbusmenu";
    match req {
        ActivateRequest::Default { bus_name, object_path, x, y } => (
            call(bus_name, object_path, kde, "Activate", CallArgs::Place(*x, *y)),
            Some(call(bus_name, object_path, fdo, "Activate", CallArgs::Place(*x, *y))),
        ),
        ActivateRequest::Secondary { bus_name, object_path, x, y } => (
            call(bus_name, object_path, kde, "SecondaryActivate", CallArgs::Place(*x, *y)),
            Some(call(bus_name, object_path, kde, "XAyatanaSecondaryActivate", CallArgs::Time(0))),
        ),
        ActivateRequest::ContextMenu { bus_name, object_path, x, y } => (
            call(bus_name, object_path, kde, "ContextMenu", CallArgs::Place(*x, *y)),
            Some(call(bus_name, object_path, kde, "SecondaryActivate", CallArgs::Place(*x, *y))),
        ),
        ActivateRequest::Scroll { bus_name, object_path, delta, orientation } => (
            call(
                bus_name,
                object_path,
                kde,
                "Scroll",
                CallArgs::Scroll(*delta, orientation.clone()),
            ),
            None,
        ),
        ActivateRequest::MenuItem { bus_name, menu_path, submenu_id } => (
            call(bus_name, menu_path, menu, "Event", CallArgs::Clicked(*submenu_id, now)),
            None,
        ),
        ActivateRequest::AboutToShow { bus_name, menu_path, id } => (
            call(bus_name, menu_path, menu, "AboutToShow", CallArgs::Id(*id)),
            None,
        ),
    }
}

/// The longest wait between two attempts to connect, in seconds.
pub const MAX_BACKOFF_SECS: u64 = 30;

/// The wait after one in seconds: twice as long, up to the longest.
pub open spec fn backoff_after(secs: int) -> int {
    if 2 * secs < MAX_BACKOFF_SECS {
        2 * secs
    } else {
        MAX_BACKOFF_SECS as int
    }
}

/// The wait before the next attempt to connect.
pub fn next_backoff(secs: u64) -> (r: u64)
    ensures
        r == backoff_after(secs as int),
{
    if secs < 15 {
        2 * secs
    } else {
        MAX_BACKOFF_SECS
    }
}

/// The wait before attempt `n`, counted from none.
pub open spec fn wait_before(n: nat) -> int
    decreases n,
{
    if n == 0 {
        1
    } else {
        backoff_after(wait_before((n - 1) as nat))
    }
}

/// The waits between attempts never get shorter, and none is longer than the
/// longest.
pub proof fn law_waits_grow_to_the_longest(n: nat)
    ensures
        1 <= wait_before(n) <= MAX_BACKOFF_SECS,
        wait_before(n) <= wait_before(n + 1),
        n >= 5 ==> wait_before(n) == MAX_BACKOFF_SECS,
    decreases n,
{
    if n == 0 {
        reveal_with_fuel(wait_before, 2);
    } else {
        law_waits_grow_to_the_longest((n - 1) as nat);
        reveal_with_fuel(wait_before, 7);
    }
}

// ---------------------------------------------------------------------------
// What is known of an item, and what is asked of it
// ---------------------------------------------------------------------------

/// A text that properties hold under a name, and nothing where something else or nothing
/// stands there.
pub open spec fn holds_text(props: Map<Seq<char>, Variant>, name: Seq<char>, s: Option<String>) -> bool {
    match s {
        Some(t) => props.dom().contains(name) && (props[name] matches Variant::Str(u) && u@ == t@),
        None => !props.dom().contains(name) || !(props[name] is Str),
    }
}

/// The same of a text that has to be more than white space.
pub open spec fn holds_filled(props: Map<Seq<char>, Variant>, name: Seq<char>, s: Option<String>) -> bool {
    match s {
        Some(t) => props.dom().contains(name) && (props[name] matches Variant::Str(u) && u@ == t@) && exists|i: int|
            0 <= i < t@.len() && !text::is_white(#[trigger] t@[i]),
        None => props.dom().contains(name) ==> (props[name] matches Variant::Str(u) ==> forall|i: int|
            0 <= i < u@.len() ==> text::is_white(#[trigger] u@[i])),
    }
}

/// Each part of an item is what stands under its own name among the properties, whatever
/// stands under the others. An item that gives no id has the bus name for one.
pub proof fn law_item_takes_each_property_from_its_name(
    props: Map<Seq<char>, Variant>,
    bus: Seq<char>,
    path: Seq<char>,
    item: TrayItem,
)
    requires
        describes(props, bus, path, item),
    ensures
        item.bus_name@ == bus,
        item.object_path@ == path,
        props.dom().contains("Id"@) && props["Id"@] is Str ==> item.id@ == props["Id"@]->Str_0@,
        !props.dom().contains("Id"@) || !(props["Id"@] is Str) ==> item.id@ == bus,
        holds_text(props, "Title"@, item.title),
        holds_filled(props, "IconName"@, item.icon_name),
        holds_filled(props, "IconThemePath"@, item.icon_theme_path),
        props.dom().contains("IconPixmap"@) ==> protocol::are_icons(props["IconPixmap"@], item.icon_pixmap),
        !props.dom().contains("IconPixmap"@) ==> item.icon_pixmap is None,
        protocol::tooltip_texts(item.tool_tip) == protocol::tooltip_in(props),
{
}

/// An item is a menu if and only if a true value, or a number other than zero, stands under
/// `ItemIsMenu`.
pub proof fn law_item_is_a_menu_when_it_says_so(
    props: Map<Seq<char>, Variant>,
    bus: Seq<char>,
    path: Seq<char>,
    item: TrayItem,
)
    requires
        describes(props, bus, path, item),
    ensures
        !props.dom().contains("ItemIsMenu"@) ==> !item.item_is_menu,
        props.dom().contains("ItemIsMenu"@) ==> (item.item_is_menu <==> match props["ItemIsMenu"@] {
            Variant::Bool(b) => b,
            Variant::I32(n) => n != 0,
            Variant::U32(n) => n != 0,
            _ => false,
        }),
{
}

/// The menu of an item is at the path under `Menu`, unless that is empty, the root, or the
/// path that says that there is none.
pub proof fn law_menu_is_at_its_path(
    props: Map<Seq<char>, Variant>,
    bus: Seq<char>,
    path: Seq<char>,
    item: TrayItem,
    p: Seq<char>,
)
    requires
        describes(props, bus, path, item),
    ensures
        !props.dom().contains("Menu"@) ==> item.menu_path is None,
        props.dom().contains("Menu"@) && !(props["Menu"@] is ObjectPath) && !(props["Menu"@] is Str)
            ==> item.menu_path is None,
        props.dom().contains("Menu"@) && ((props["Menu"@] matches Variant::ObjectPath(s) && s@ == p) || (
        props["Menu"@] matches Variant::Str(s) && s@ == p)) ==> {
            &&& item.menu_path is None <==> p.len() == 0 || p == "/"@ || p == "/NO_DBUSMENU"@
            &&& item.menu_path matches Some(s) ==> s@ == p
        },
{
}

/// An item is read anew after each of its own signals and after a change of its properties,
/// its menu after a change of the layout or of the entries, and nothing after others.
pub proof fn law_signals_have_what_they_tell_read(source: SignalSource, member: Seq<char>)
    ensures
        reaction_to(source, member) is RefreshItem <==> source is Item || (source is Properties && member
            == "PropertiesChanged"@),
        reaction_to(source, member) is RefreshMenu <==> source is Menu && (member == "LayoutUpdated"@ || member
            == "ItemsPropertiesUpdated"@),
{
}

/// An item goes with the name that lost its owner and with that owner, by its bus name or by
/// its key, and with no other.
pub proof fn law_item_goes_with_its_owner(bus: Seq<char>, key: Seq<char>, name: Seq<char>, owner: Seq<char>)
    ensures
        bus == name || bus == owner ==> belongs(bus, key, name, owner),
        key == name || key == owner ==> belongs(bus, key, name, owner),
        (exists|path: Seq<char>| key == #[trigger] (name + "/"@ + path)) ==> belongs(bus, key, name, owner),
        (exists|path: Seq<char>| key == #[trigger] (owner + "/"@ + path)) ==> belongs(bus, key, name, owner),
        belongs(bus, key, name, owner) ==> bus == name || bus == owner || key == name || key == owner || (exists|
            path: Seq<char>,
        |
            key == #[trigger] (name + "/"@ + path)) || (exists|path: Seq<char>|
            key == #[trigger] (owner + "/"@ + path)),
        belongs(bus, key, name, owner) == belongs(bus, key, owner, name),
{
    lemma_key_of(key, name);
    lemma_key_of(key, owner);
}

proof fn lemma_key_of(key: Seq<char>, bus: Seq<char>)
    ensures
        key_of(key, bus) <==> key == bus || exists|path: Seq<char>| key == #[trigger] (bus + "/"@ + path),
{
    let start = bus + "/"@;
    if exists|path: Seq<char>| key == #[trigger] (bus + "/"@ + path) {
        let path = choose|path: Seq<char>| key == #[trigger] (bus + "/"@ + path);
        assert(key.take(start.len() as int) =~= start);
    }
    if text::begins(key, start) {
        let path = key.skip(start.len() as int);
        assert(key =~= bus + "/"@ + path);
    }
}

/// An item that registers itself has its path under the name of its sender, whatever name it
/// gives; where the sender is not known, under the name that it gives.
pub proof fn law_key_begins_with_the_sender(service: Seq<char>, sender: Seq<char>)
    ensures
        sender.len() > 0 ==> registration_key(service, sender) == sender + protocol::address(
            service,
            Some(sender),
        ).1,
        sender.len() == 0 ==> registration_key(service, sender) == protocol::address(service, Some(sender)).0
            + protocol::address(service, Some(sender)).1,
{
}

/// A line that begins with a child's node names the path of the item with the child's name.
pub proof fn law_child_is_named_in_its_line(name: Seq<char>, rest: Seq<char>)
    requires
        !name.contains('"'),
    ensures
        name.len() > 0 ==> child_in("<node name=\""@ + name + seq!['"'] + rest) == Some(
            "/org/ayatana/NotificationItem/"@ + name,
        ),
        name.len() == 0 ==> child_in("<node name=\""@ + name + seq!['"'] + rest) is None,
{
    let mark = "<node name=\""@;
    reveal_strlit("<node name=\"");
    let line = mark + name + seq!['"'] + rest;
    assert(line.subrange(0, mark.len() as int) =~= mark);
    assert(text::occurs_at(line, mark, 0));
    assert(text::find_from(line, mark, 0) == Some(0int));
    let tail = name + seq!['"'] + rest;
    assert(line.skip(mark.len() as int) =~= tail);
    text::lemma_char_from(tail, '"', 0);
    let e = text::char_from(tail, '"', 0);
    assert(tail[name.len() as int] == '"');
    assert(e == name.len()) by {
        if e < name.len() {
            assert(tail[e] == name[e]);
            assert(name.contains(name[e]));
        }
    }
    assert(tail.take(e) =~= name);
}

/// The children of a document are those of its lines, in their order.
pub proof fn law_children_are_named_line_by_line(lines: Seq<Seq<char>>, line: Seq<char>)
    ensures
        children_in(Seq::empty()).len() == 0,
        child_in(line) is None ==> children_in(lines.push(line)) == children_in(lines),
        child_in(line) matches Some(p) ==> children_in(lines.push(line)) == children_in(lines).push(p),
{
    assert(lines.push(line).drop_last() =~= lines);
}

/// A call goes to a method of an interface at a path of a bus name.
pub open spec fn goes_to(c: BusCall, bus: String, path: String, interface: Seq<char>, method: Seq<char>) -> bool {
    c.bus@ == bus@ && c.path@ == path@ && c.interface@ == interface && c.method@ == method
}

/// Each request is made of the item or the menu that it names, with what it says, by the
/// method that is meant for it.
pub proof fn law_requests_go_where_they_say(req: ActivateRequest, now: u32, c: BusCall)
    requires
        c.model() == calls_for(req.model(), now).0,
    ensures
        req matches ActivateRequest::Default { bus_name, object_path, x, y } ==> goes_to(
            c,
            bus_name,
            object_path,
            "org.kde.StatusNotifierItem"@,
            "Activate"@,
        ) && c.args == CallArgs::Place(x, y),
        req matches ActivateRequest::Secondary { bus_name, object_path, x, y } ==> goes_to(
            c,
            bus_name,
            object_path,
            "org.kde.StatusNotifierItem"@,
            "SecondaryActivate"@,
        ) && c.args == CallArgs::Place(x, y),
        req matches ActivateRequest::ContextMenu { bus_name, object_path, x, y } ==> goes_to(
            c,
            bus_name,
            object_path,
            "org.kde.StatusNotifierItem"@,
            "ContextMenu"@,
        ) && c.args == CallArgs::Place(x, y),
        req matches ActivateRequest::Scroll { bus_name, object_path, delta, orientation } ==> goes_to(
            c,
            bus_name,
            object_path,
            "org.kde.StatusNotifierItem"@,
            "Scroll"@,
        ) && (c.args matches CallArgs::Scroll(d, o) && d == delta && o@ == orientation@),
        req matches ActivateRequest::MenuItem { bus_name, menu_path, submenu_id } ==> goes_to(
            c,
            bus_name,
            menu_path,
            "com.canonical.dbusmenu"@,
            "Event"@,
        ) && c.args == CallArgs::Clicked(submenu_id, now),
        req matches ActivateRequest::AboutToShow { bus_name, menu_path, id } ==> goes_to(
            c,
            bus_name,
            menu_path,
            "com.canonical.dbusmenu"@,
            "AboutToShow"@,
        ) && c.args == CallArgs::Id(id),
{
}

/// A click that fails is tried again: an activation by the other interface, the others by
/// the method that comes next to them. Scrolling and what is asked of a menu are not.
pub proof fn law_failed_clicks_are_tried_otherwise(req: ActivateRequest, now: u32, c: BusCall)
    ensures
        calls_for(req.model(), now).1 is None <==> req is Scroll || req is MenuItem || req is AboutToShow,
        calls_for(req.model(), now).1 == Some(c.model()) ==> {
            &&& req matches ActivateRequest::Default { bus_name, object_path, x, y } ==> goes_to(
                c,
                bus_name,
                object_path,
                "org.freedesktop.StatusNotifierItem"@,
                "Activate"@,
            ) && c.args == CallArgs::Place(x, y)
            &&& req matches ActivateRequest::Secondary { bus_name, object_path, x, y } ==> goes_to(
                c,
                bus_name,
                object_path,
                "org.kde.StatusNotifierItem"@,
                "XAyatanaSecondaryActivate"@,
            ) && c.args == CallArgs::Time(0)
            &&& req matches ActivateRequest::ContextMenu { bus_name, object_path, x, y } ==> goes_to(
                c,
                bus_name,
                object_path,
                "org.kde.StatusNotifierItem"@,
                "SecondaryActivate"@,
            ) && c.args == CallArgs::Place(x, y)
        },
{
}

/// An item is asked for by its id at the two interfaces, and then by its status.
pub proof fn law_items_are_asked_for_their_id(q: Seq<(Seq<char>, Seq<char>)>)
    requires
        q == questions(),
    ensures
        q.len() == 3,
        q[0] == ("org.kde.StatusNotifierItem"@, "Id"@),
        q[1] == ("org.freedesktop.StatusNotifierItem"@, "Id"@),
        q[2] == ("org.kde.StatusNotifierItem"@, "Status"@),
{
}

/// The wait doubles until it is half a minute, and stays there.
pub proof fn law_wait_doubles(secs: int)
    ensures
        0 <= secs <= 15 ==> backoff_after(secs) == secs + secs,
        secs >= 15 ==> backoff_after(secs) == 30,
{
}

/// A list of names names each of them once, and no other.
pub proof fn law_list_names_each_once(v: Seq<Seq<char>>, set: Set<Seq<char>>, i: int, j: int, k: Seq<char>)
    requires
        lists(v, set),
        0 <= i < j < v.len(),
    ensures
        v[i] != v[j],
        set.contains(v[i]),
        set.contains(k) ==> v.contains(k),
{
    assert(v.contains(v[i]));
}

/// Messages that all say one thing say it one by one.
pub proof fn law_messages_say_the_same(messages: Seq<TrayEvent>, what: types::EventModel, i: int)
    requires
        all_say(messages, what),
        0 <= i < messages.len(),
    ensures
        messages[i].model() == what,
{
}

} // verus!
