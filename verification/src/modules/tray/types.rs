//! What the tray holds, and what is asked of its items.
use vstd::prelude::*;

use crate::icon::RawIconPixmap;
use crate::modules::tray::protocol;
use crate::names::NameMap;
use crate::text;

verus! {

/// An icon that an item sends in pixels.
pub type TrayIconPixmap = RawIconPixmap;

/// The tooltip of an item.
#[derive(Clone, Debug, PartialEq, Eq)]
pub struct TrayTooltip {
    pub title: String,
    pub description: String,
}

impl Default for TrayTooltip {
    fn default() -> (r: Self)
        ensures
            r.title@.len() == 0,
            r.description@.len() == 0,
    {
        TrayTooltip { title: String::new(), description: String::new() }
    }
}

/// An item of the tray.
#[derive(Debug)]
pub struct TrayItem {
    pub bus_name: String,
    pub object_path: String,
    pub id: String,
    pub title: Option<String>,
    pub icon_name: Option<String>,
    pub icon_theme_path: Option<String>,
    pub icon_pixmap: Option<Vec<TrayIconPixmap>>,
    pub tool_tip: Option<TrayTooltip>,
    pub item_is_menu: bool,
    pub menu_path: Option<String>,
}

/// The kind of a menu entry that can be switched.
#[derive(Clone, Copy, Debug, PartialEq, Eq, Structural)]
pub enum ToggleType {
    Checkmark,
    Radio,
}

/// An entry of an item's menu.
#[derive(Debug)]
pub struct MenuItem {
    pub id: i32,
    pub label: Option<String>,
    pub enabled: bool,
    pub visible: bool,
    pub is_separator: bool,
    pub toggle_type: Option<ToggleType>,
    pub toggle_state: i32,
    pub submenu: Vec<MenuItem>,
}

/// The menu of an item.
#[derive(Debug)]
pub struct TrayMenu {
    pub submenus: Vec<MenuItem>,
}

impl Default for TrayMenu {
    fn default() -> (r: Self)
        ensures
            r.submenus@.len() == 0,
    {
        TrayMenu { submenus: Vec::new() }
    }
}

/// What happened in the tray.
#[derive(Debug)]
pub enum TrayEvent {
    Add(String, Box<TrayItem>),
    Update(String, Box<TrayItem>),
    Remove(String),
}

/// What a click or a scroll asks of an item.
#[derive(Clone, Debug)]
pub enum ActivateRequest {
    Default { bus_name: String, object_path: String, x: i32, y: i32 },
    Secondary { bus_name: String, object_path: String, x: i32, y: i32 },
    ContextMenu { bus_name: String, object_path: String, x: i32, y: i32 },
    Scroll { bus_name: String, object_path: String, delta: i32, orientation: String },
    MenuItem { bus_name: String, menu_path: String, submenu_id: i32 },
    AboutToShow { bus_name: String, menu_path: String, id: i32 },
}

/// What an `ActivateRequest` says.
pub ghost enum RequestModel {
    Default { bus: Seq<char>, path: Seq<char>, x: i32, y: i32 },
    Secondary { bus: Seq<char>, path: Seq<char>, x: i32, y: i32 },
    ContextMenu { bus: Seq<char>, path: Seq<char>, x: i32, y: i32 },
    Scroll { bus: Seq<char>, path: Seq<char>, delta: i32, orientation: Seq<char> },
    MenuItem { bus: Seq<char>, menu: Seq<char>, id: i32 },
    AboutToShow { bus: Seq<char>, menu: Seq<char>, id: i32 },
}

impl ActivateRequest {
    /// What this request says.
    pub open spec fn model(self) -> RequestModel {
        match self {
            ActivateRequest::Default { bus_name, object_path, x, y } => RequestModel::Default {
                bus: bus_name@,
                path: object_path@,
                x,
                y,
            },
            ActivateRequest::Secondary { bus_name, object_path, x, y } => RequestModel::Secondary {
                bus: bus_name@,
                path: object_path@,
                x,
                y,
            },
            ActivateRequest::ContextMenu { bus_name, object_path, x, y } => RequestModel::ContextMenu {
                bus: bus_name@,
                path: object_path@,
                x,
                y,
            },
            ActivateRequest::Scroll { bus_name, object_path, delta, orientation } => RequestModel::Scroll {
                bus: bus_name@,
                path: object_path@,
                delta,
                orientation: orientation@,
            },
            ActivateRequest::MenuItem { bus_name, menu_path, submenu_id } => RequestModel::MenuItem {
                bus: bus_name@,
                menu: menu_path@,
                id: submenu_id,
            },
            ActivateRequest::AboutToShow { bus_name, menu_path, id } => RequestModel::AboutToShow {
                bus: bus_name@,
                menu: menu_path@,
                id,
            },
        }
    }
}

/// The items of the tray by their keys, with their menus.
pub type TrayItemMap = NameMap<(TrayItem, Option<TrayMenu>)>;

/// An item of the tray at a moment: its key, and what is known of it and of its menu.
pub type TrayItemSnapshot = (String, TrayItem, Option<TrayMenu>);

/// What a `TrayItem` says.
pub ghost struct ItemModel {
    pub bus: Seq<char>,
    pub path: Seq<char>,
    pub id: Seq<char>,
    pub title: Option<Seq<char>>,
    pub icon_name: Option<Seq<char>>,
    pub icon_theme_path: Option<Seq<char>>,
    pub icon_pixmap: Option<Seq<protocol::PixmapModel>>,
    pub tool_tip: Option<(Seq<char>, Seq<char>)>,
    pub item_is_menu: bool,
    pub menu_path: Option<Seq<char>>,
}

impl TrayItem {
    /// What this item says.
    pub open spec fn model(self) -> ItemModel {
        ItemModel {
            bus: self.bus_name@,
            path: self.object_path@,
            id: self.id@,
            title: text::opt(self.title),
            icon_name: text::opt(self.icon_name),
            icon_theme_path: text::opt(self.icon_theme_path),
            icon_pixmap: match self.icon_pixmap {
                Some(v) => Some(protocol::pixmap_models(v@)),
                None => None,
            },
            tool_tip: match self.tool_tip {
                Some(t) => Some((t.title@, t.description@)),
                None => None,
            },
            item_is_menu: self.item_is_menu,
            menu_path: text::opt(self.menu_path),
        }
    }
}

fn copy_pixmaps(v: &Vec<TrayIconPixmap>) -> (r: Vec<TrayIconPixmap>)
    ensures
        protocol::pixmap_models(r@) == protocol::pixmap_models(v@),
{
    let mut r: Vec<TrayIconPixmap> = Vec::new();
    let mut i: usize = 0;
    while i < v.len()
        invariant
            i <= v@.len(),
            r@.len() == i,
            forall|k: int|
                0 <= k < i ==> protocol::pixmap_model(#[trigger] r@[k]) == protocol::pixmap_model(v@[k]),
        decreases v@.len() - i,
    {
        let pixels: Vec<u8> = v[i].pixels.clone();
        assert(pixels@ =~= v@[i as int].pixels@);
        r.push(RawIconPixmap { width: v[i].width, height: v[i].height, pixels });
        i = i + 1;
    }
    assert(protocol::pixmap_models(r@) =~= protocol::pixmap_models(v@));
    r
}

impl Clone for TrayItem {
    fn clone(&self) -> (r: Self)
        ensures
            r.model() == self.model(),
    {
        TrayItem {
            bus_name: self.bus_name.clone(),
            object_path: self.object_path.clone(),
            id: self.id.clone(),
            title: text::copy_opt(&self.title),
            icon_name: text::copy_opt(&self.icon_name),
            icon_theme_path: text::copy_opt(&self.icon_theme_path),
            icon_pixmap: match &self.icon_pixmap {
                Some(v) => Some(copy_pixmaps(v)),
                None => None,
            },
            tool_tip: match &self.tool_tip {
                Some(t) => Some(
                    TrayTooltip { title: t.title.clone(), description: t.description.clone() },
                ),
                None => None,
            },
            item_is_menu: self.item_is_menu,
            menu_path: text::copy_opt(&self.menu_path),
        }
    }
}

/// What a `TrayEvent` says.
pub ghost enum EventModel {
    Add(Seq<char>, ItemModel),
    Update(Seq<char>, ItemModel),
    Remove(Seq<char>),
}

impl TrayEvent {
    /// What this event says.
    pub open spec fn model(self) -> EventModel {
        match self {
            TrayEvent::Add(key, item) => EventModel::Add(key@, item.model()),
            TrayEvent::Update(key, item) => EventModel::Update(key@, item.model()),
            TrayEvent::Remove(key) => EventModel::Remove(key@),
        }
    }
}

fn copy_boxed(item: &Box<TrayItem>) -> (r: Box<TrayItem>)
    ensures
        r.model() == item.model(),
{
    let inner: &TrayItem = &**item;
    Box::new(inner.clone())
}

impl Clone for TrayEvent {
    fn clone(&self) -> (r: Self)
        ensures
            r.model() == self.model(),
    {
        match self {
            TrayEvent::Add(key, item) => TrayEvent::Add(key.clone(), copy_boxed(item)),
            TrayEvent::Update(key, item) => TrayEvent::Update(key.clone(), copy_boxed(item)),
            TrayEvent::Remove(key) => TrayEvent::Remove(key.clone()),
        }
    }
}

/// What a menu that may be there says.
pub open spec fn opt_menu(m: Option<TrayMenu>) -> Option<Seq<MenuModel>> {
    match m {
        Some(m) => Some(menu_models(m.submenus@)),
        None => None,
    }
}

impl Clone for TrayMenu {
    fn clone(&self) -> (r: Self)
        ensures
            menu_models(r.submenus@) == menu_models(self.submenus@),
    {
        let mut submenus: Vec<MenuItem> = Vec::new();
        let mut i: usize = 0;
        while i < self.submenus.len()
            invariant
                i <= self.submenus@.len(),
                submenus@.len() == i,
                forall|k: int|
                    0 <= k < i ==> (#[trigger] submenus@[k]).model() == self.submenus@[k].model(),
            decreases self.submenus@.len() - i,
        {
            submenus.push(self.submenus[i].clone());
            i = i + 1;
        }
        assert(menu_models(submenus@) =~= menu_models(self.submenus@));
        TrayMenu { submenus }
    }
}

/// What a `MenuItem` says.
pub ghost struct MenuModel {
    pub id: i32,
    pub label: Option<Seq<char>>,
    pub enabled: bool,
    pub visible: bool,
    pub is_separator: bool,
    pub toggle_type: Option<ToggleType>,
    pub toggle_state: i32,
    pub submenu: Seq<MenuModel>,
}

impl MenuItem {
    /// What this entry says.
    pub open spec fn model(self) -> MenuModel
        decreases self,
    {
        MenuModel {
            id: self.id,
            label: text::opt(self.label),
            enabled: self.enabled,
            visible: self.visible,
            is_separator: self.is_separator,
            toggle_type: self.toggle_type,
            toggle_state: self.toggle_state,
            submenu: Seq::new(
                self.submenu@.len(),
                |i: int|
                    if 0 <= i < self.submenu@.len() {
                        self.submenu@[i].model()
                    } else {
                        arbitrary()
                    },
            ),
        }
    }
}

impl Clone for MenuItem {
    fn clone(&self) -> (r: Self)
        ensures
            r.model() == self.model(),
        decreases self,
    {
        let mut submenu: Vec<MenuItem> = Vec::new();
        let mut i: usize = 0;
        while i < self.submenu.len()
            invariant
                i <= self.submenu@.len(),
                submenu@.len() == i,
                forall|j: int| 0 <= j < i ==> (#[trigger] submenu@[j]).model() == self.submenu@[j].model(),
            decreases self.submenu@.len() - i,
        {
            submenu.push(self.submenu[i].clone());
            i = i + 1;
        }
        let r: MenuItem = MenuItem {
            id: self.id,
            label: text::copy_opt(&self.label),
            enabled: self.enabled,
            visible: self.visible,
            is_separator: self.is_separator,
            toggle_type: self.toggle_type,
            toggle_state: self.toggle_state,
            submenu,
        };
        proof {
            lemma_menu_model(r);
            lemma_menu_model(*self);
            assert(r.model().submenu =~= self.model().submenu);
        }
        r
    }
}

/// What entries say.
pub open spec fn menu_models(v: Seq<MenuItem>) -> Seq<MenuModel> {
    Seq::new(v.len(), |i: int| v[i].model())
}

/// The submenu of an entry's model is made of the models of its entries.
pub proof fn lemma_menu_model(m: MenuItem)
    ensures
        m.model().submenu == menu_models(m.submenu@),
{
    assert(m.model().submenu =~= menu_models(m.submenu@));
}

// ---------------------------------------------------------------------------
// What the models tell
// ---------------------------------------------------------------------------

/// Two texts that may be there say the same.
pub open spec fn same_text(a: Option<String>, b: Option<String>) -> bool {
    match (a, b) {
        (Some(s), Some(t)) => s@ == t@,
        (None, None) => true,
        _ => false,
    }
}

/// Two items that say the same agree in each of their parts.
pub proof fn law_items_that_say_the_same_agree(a: TrayItem, b: TrayItem)
    requires
        a.model() == b.model(),
    ensures
        a.bus_name@ == b.bus_name@,
        a.object_path@ == b.object_path@,
        a.id@ == b.id@,
        same_text(a.title, b.title),
        same_text(a.icon_name, b.icon_name),
        same_text(a.icon_theme_path, b.icon_theme_path),
        a.icon_pixmap is Some <==> b.icon_pixmap is Some,
        a.icon_pixmap matches Some(v) ==> v@.len() == b.icon_pixmap->0@.len() && forall|i: int|
            0 <= i < v@.len() ==> (#[trigger] v@[i]).width == b.icon_pixmap->0@[i].width && v@[i].height
                == b.icon_pixmap->0@[i].height && v@[i].pixels@ == b.icon_pixmap->0@[i].pixels@,
        a.tool_tip is Some <==> b.tool_tip is Some,
        a.tool_tip matches Some(t) ==> t.title@ == b.tool_tip->0.title@ && t.description@
            == b.tool_tip->0.description@,
        a.item_is_menu == b.item_is_menu,
        same_text(a.menu_path, b.menu_path),
{
    if let Some(v) = a.icon_pixmap {
        let w = b.icon_pixmap->0;
        let m = protocol::pixmap_models(v@);
        let n = protocol::pixmap_models(w@);
        assert(m == n);
        assert(m.len() == v@.len() && n.len() == w@.len());
        assert forall|i: int| 0 <= i < v@.len() implies (#[trigger] v@[i]).width == w@[i].width && v@[i].height
            == w@[i].height && v@[i].pixels@ == w@[i].pixels@ by {
            assert(m[i] == protocol::pixmap_model(v@[i]));
            assert(n[i] == protocol::pixmap_model(w@[i]));
        }
    }
}

/// Two entries of a menu that say the same agree in each of their parts.
pub proof fn law_entries_that_say_the_same_agree(a: MenuItem, b: MenuItem)
    requires
        a.model() == b.model(),
    ensures
        a.id == b.id,
        same_text(a.label, b.label),
        a.enabled == b.enabled,
        a.visible == b.visible,
        a.is_separator == b.is_separator,
        a.toggle_type == b.toggle_type,
        a.toggle_state == b.toggle_state,
        a.submenu@.len() == b.submenu@.len(),
        forall|i: int| 0 <= i < a.submenu@.len() ==> (#[trigger] a.submenu@[i]).model() == b.submenu@[i].model(),
{
    lemma_menu_model(a);
    lemma_menu_model(b);
    let m = menu_models(a.submenu@);
    let n = menu_models(b.submenu@);
    assert(m.len() == a.submenu@.len() && n.len() == b.submenu@.len());
    assert forall|i: int| 0 <= i < a.submenu@.len() implies (#[trigger] a.submenu@[i]).model()
        == b.submenu@[i].model() by {
        assert(m[i] == n[i]);
    }
}

/// Two events that say the same are of one kind, and of one item.
pub proof fn law_events_that_say_the_same_agree(a: TrayEvent, b: TrayEvent)
    requires
        a.model() == b.model(),
    ensures
        a matches TrayEvent::Add(k, x) ==> (b matches TrayEvent::Add(l, y) && k@ == l@ && x.model() == y.model()),
        a matches TrayEvent::Update(k, x) ==> (b matches TrayEvent::Update(l, y) && k@ == l@ && x.model() == y.model()),
        a matches TrayEvent::Remove(k) ==> (b matches TrayEvent::Remove(l) && k@ == l@),
{
}

/// The entries of a menu stand for what they say one by one.
pub proof fn law_entries_stand_in_their_order(v: Seq<MenuItem>, menu: TrayMenu, i: int)
    ensures
        menu_models(v).len() == v.len(),
        0 <= i < v.len() ==> menu_models(v)[i] == v[i].model(),
        opt_menu(None) is None,
        opt_menu(Some(menu)) is Some && opt_menu(Some(menu))->0.len() == menu.submenus@.len(),
        0 <= i < menu.submenus@.len() ==> opt_menu(Some(menu))->0[i] == menu.submenus@[i].model(),
{
}

} // verus!
