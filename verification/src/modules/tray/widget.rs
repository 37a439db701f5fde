//! What the tray shows, and what clicks on its items ask for.
use vstd::prelude::*;
use vstd::string::StringExecFns;

use crate::config::BarPosition;
use crate::modules::tray::protocol;
use crate::modules::tray::protocol::clean_menu_label;
use crate::modules::tray::types;
use crate::modules::tray::types::{
    ActivateRequest, MenuItem, MenuModel, RequestModel, TrayItem, TrayMenu, TrayTooltip,
};
use crate::text;

verus! {

// ---------------------------------------------------------------------------
// Menus
// ---------------------------------------------------------------------------

/// A row of a menu as it is shown.
#[derive(Debug)]
pub enum MenuRow {
    Separator,
    Submenu { label: String, enabled: bool, rows: Vec<MenuRow> },
    /// An entry that can be chosen. `check` is there for one that can be switched,
    /// and says whether it is on.
    Item { id: i32, label: String, enabled: bool, check: Option<bool> },
}

/// What a row says.
pub ghost enum RowModel {
    Separator,
    Submenu { label: Seq<char>, enabled: bool, rows: Seq<RowModel> },
    Item { id: i32, label: Seq<char>, enabled: bool, check: Option<bool> },
}

impl MenuRow {
    /// What this row says.
    pub open spec fn model(self) -> RowModel
        decreases self,
    {
        match self {
            MenuRow::Separator => RowModel::Separator,
            MenuRow::Submenu { label, enabled, rows } => RowModel::Submenu {
                label: label@,
                enabled,
                rows: Seq::new(
                    rows@.len(),
                    |i: int|
                        if 0 <= i < rows@.len() {
                            rows@[i].model()
                        } else {
                            arbitrary()
                        },
                ),
            },
            MenuRow::Item { id, label, enabled, check } => RowModel::Item {
                id,
                label: label@,
                enabled,
                check,
            },
        }
    }
}

/// What rows say.
pub open spec fn row_models(v: Seq<MenuRow>) -> Seq<RowModel> {
    Seq::new(v.len(), |i: int| v[i].model())
}

/// The rows so far, with what decides on the next one.
pub ghost struct RowState {
    pub rows: Seq<RowModel>,
    /// The label of the last row that has one.
    pub last_label: Option<Seq<char>>,
    /// No row came yet, or the last one is a separator.
    pub last_was_separator: bool,
}

/// The label that an entry is shown with.
pub open spec fn shown_label(m: MenuModel) -> Seq<char> {
    match m.label {
        Some(l) => protocol::clean_label(l),
        None => protocol::clean_label(Seq::empty()),
    }
}

/// The submenu of an entry holds nothing but another submenu, with the same label
/// or with none.
pub open spec fn is_wrapper(m: MenuModel) -> bool {
    m.submenu.len() == 1 && m.submenu[0].submenu.len() > 0 && (shown_label(m.submenu[0])
        == shown_label(m) || shown_label(m.submenu[0]).len() == 0)
}

/// The switch of an entry: whether it is on.
pub open spec fn check_of(m: MenuModel) -> Option<bool> {
    match m.toggle_type {
        Some(_) => Some(m.toggle_state == 1),
        None => None,
    }
}

/// The rows that a menu is shown with.
///
/// What is not visible is left out, and so is an entry without a label or with the
/// label of the row before, unless it opens a submenu. A separator comes neither
/// first nor after another one. A submenu around a single submenu is left out.
pub open spec fn rows_of(items: Seq<MenuModel>) -> RowState
    decreases items,
{
    if items.len() == 0 {
        RowState { rows: Seq::empty(), last_label: None, last_was_separator: true }
    } else {
        let s = rows_of(items.subrange(0, items.len() - 1));
        let m = items[items.len() - 1];
        if !m.visible {
            s
        } else if m.is_separator {
            if s.last_was_separator {
                s
            } else {
                RowState { rows: s.rows.push(RowModel::Separator), last_was_separator: true, ..s }
            }
        } else if m.submenu.len() == 0 {
            if shown_label(m).len() == 0 || s.last_label == Some(shown_label(m)) {
                s
            } else {
                RowState {
                    rows: s.rows.push(
                        RowModel::Item {
                            id: m.id,
                            label: shown_label(m),
                            enabled: m.enabled,
                            check: check_of(m),
                        },
                    ),
                    last_label: Some(shown_label(m)),
                    last_was_separator: false,
                }
            }
        } else {
            let inner = if is_wrapper(m) {
                rows_of(items[items.len() - 1].submenu[0].submenu)
            } else {
                rows_of(items[items.len() - 1].submenu)
            };
            RowState {
                rows: s.rows.push(
                    RowModel::Submenu { label: shown_label(m), enabled: m.enabled, rows: inner.rows },
                ),
                last_label: Some(shown_label(m)),
                last_was_separator: false,
            }
        }
    }
}

/// No separator comes first or after another one, here and in all submenus.
pub open spec fn tidy(rows: Seq<RowModel>) -> bool
    decreases rows,
{
    &&& rows.len() > 0 ==> !(rows[0] is Separator)
    &&& forall|i: int, j: int|
        0 <= i < rows.len() && j == i + 1 && j < rows.len() && (#[trigger] rows[i]) is Separator ==> !((
        #[trigger] rows[j]) is Separator)
    &&& forall|i: int|
        0 <= i < rows.len() ==> match #[trigger] rows[i] {
            RowModel::Submenu { rows: inner, .. } => tidy(inner),
            _ => true,
        }
}

/// Whatever entries a menu holds, each separator follows an entry: none comes first,
/// and none after another one.
pub proof fn law_separators_follow_entries(items: Seq<MenuModel>)
    ensures
        tidy(rows_of(items).rows),
        rows_of(items).last_was_separator == (rows_of(items).rows.len() == 0 || rows_of(
            items,
        ).rows.last() is Separator),
    decreases items,
{
    if items.len() > 0 {
        let before = items.subrange(0, items.len() - 1);
        let m = items[items.len() - 1];
        law_separators_follow_entries(before);
        if m.submenu.len() > 0 {
            if is_wrapper(m) {
                law_separators_follow_entries(items[items.len() - 1].submenu[0].submenu);
            } else {
                law_separators_follow_entries(items[items.len() - 1].submenu);
            }
        }
        let a = rows_of(before).rows;
        let b = rows_of(items).rows;
        if b.len() > a.len() {
            assert(b == a.push(b.last()));
            assert forall|i: int, j: int|
                0 <= i < b.len() && j == i + 1 && j < b.len() && (#[trigger] b[i]) is Separator implies !((
            #[trigger] b[j]) is Separator) by {
                assert(b[i] == a[i]);
                if j < a.len() {
                    assert(b[j] == a[j]);
                }
            }
            assert forall|i: int| 0 <= i < b.len() implies match #[trigger] b[i] {
                RowModel::Submenu { rows: inner, .. } => tidy(inner),
                _ => true,
            } by {
                if i < a.len() {
                    assert(b[i] == a[i]);
                }
            }
            if a.len() > 0 {
                assert(b[0] == a[0]);
            }
        } else {
            assert(b == a);
        }
    }
}

fn label_to_show(m: &MenuItem) -> (r: String)
    ensures
        r@ == shown_label(m.model()),
{
    match &m.label {
        Some(l) => clean_menu_label(l.as_str()),
        None => {
            let none: String = String::new();
            assert(none@ =~= Seq::empty());
            clean_menu_label(none.as_str())
        },
    }
}

fn check_to_show(m: &MenuItem) -> (r: Option<bool>)
    ensures
        r == check_of(m.model()),
{
    match m.toggle_type {
        Some(_) => Some(m.toggle_state == 1),
        None => None,
    }
}

fn wraps_a_submenu(m: &MenuItem) -> (r: bool)
    ensures
        r == is_wrapper(m.model()),
{
    proof {
        types::lemma_menu_model(*m);
    }
    if m.submenu.len() != 1 {
        return false;
    }
    let child: &MenuItem = &m.submenu[0];
    proof {
        types::lemma_menu_model(*child);
        assert(m.model().submenu[0] == child.model());
    }
    if child.submenu.len() == 0 {
        return false;
    }
    let inner: String = label_to_show(child);
    let outer: String = label_to_show(m);
    text::same(inner.as_str(), outer.as_str()) || inner.as_str().unicode_len() == 0
}

/// The rows that a menu is shown with.
pub fn menu_rows(items: &Vec<MenuItem>) -> (r: Vec<MenuRow>)
    ensures
        row_models(r@) == rows_of(types::menu_models(items@)).rows,
    decreases items,
{
    let ghost models: Seq<MenuModel> = types::menu_models(items@);
    let mut rows: Vec<MenuRow> = Vec::new();
    let mut last_label: Option<String> = None;
    let mut last_was_separator: bool = true;
    let mut i: usize = 0;
    assert(row_models(rows@) =~= Seq::empty());
    while i < items.len()
        invariant
            i <= items@.len(),
            models == types::menu_models(items@),
            row_models(rows@) == rows_of(models.subrange(0, i as int)).rows,
            text::opt(last_label) == rows_of(models.subrange(0, i as int)).last_label,
            last_was_separator == rows_of(models.subrange(0, i as int)).last_was_separator,
        decreases items@.len() - i,
    {
        let m: &MenuItem = &items[i];
        let ghost upto: Seq<MenuModel> = models.subrange(0, i + 1);
        proof {
            types::lemma_menu_model(*m);
            assert(upto.subrange(0, i as int) =~= models.subrange(0, i as int));
            assert(upto[i as int] == m.model());
        }
        let ghost before: Seq<MenuRow> = rows@;
        if !m.visible {
        } else if m.is_separator {
            if !last_was_separator {
                rows.push(MenuRow::Separator);
                last_was_separator = true;
                assert(row_models(rows@) =~= row_models(before).push(RowModel::Separator));
            }
        } else {
            let label: String = label_to_show(m);
            if m.submenu.len() == 0 {
                let repeated: bool = match &last_label {
                    Some(l) => text::same(l.as_str(), label.as_str()),
                    None => false,
                };
                if label.as_str().unicode_len() != 0 && !repeated {
                    let row: MenuRow = MenuRow::Item {
                        id: m.id,
                        label: label.clone(),
                        enabled: m.enabled,
                        check: check_to_show(m),
                    };
                    rows.push(row);
                    assert(row_models(rows@) =~= row_models(before).push(row.model()));
                    last_label = Some(label);
                    last_was_separator = false;
                }
            } else {
                let inner: Vec<MenuRow> = if wraps_a_submenu(m) {
                    proof {
                        types::lemma_menu_model(m.submenu@[0]);
                        assert(m.model().submenu[0] == m.submenu@[0].model());
                    }
                    menu_rows(&m.submenu[0].submenu)
                } else {
                    menu_rows(&m.submenu)
                };
                let row: MenuRow = MenuRow::Submenu {
                    label: label.clone(),
                    enabled: m.enabled,
                    rows: inner,
                };
                assert(row.model()->Submenu_rows =~= row_models(inner@));
                rows.push(row);
                assert(row_models(rows@) =~= row_models(before).push(row.model()));
                last_label = Some(label);
                last_was_separator = false;
            }
        }
        i = i + 1;
    }
    assert(models.subrange(0, i as int) =~= models);
    rows
}

// ---------------------------------------------------------------------------
// Clicks
// ---------------------------------------------------------------------------

/// What a click on an item does.
#[derive(Debug)]
pub enum TrayClick {
    Ignore,
    /// The menu of the item is opened, after the request is sent.
    Popup(ActivateRequest),
    Send(ActivateRequest),
}

/// What a click on an item does.
pub ghost enum ClickModel {
    Ignore,
    Popup(RequestModel),
    Send(RequestModel),
}

impl TrayClick {
    /// What this click does.
    pub open spec fn model(self) -> ClickModel {
        match self {
            TrayClick::Ignore => ClickModel::Ignore,
            TrayClick::Popup(r) => ClickModel::Popup(r.model()),
            TrayClick::Send(r) => ClickModel::Send(r.model()),
        }
    }
}

/// The item has a menu with entries.
pub open spec fn has_menu(item: TrayItem, menu: Option<TrayMenu>) -> bool {
    item.menu_path is Some && match menu {
        Some(m) => m.submenus@.len() > 0,
        None => false,
    }
}

/// What a click on an item does. The first button opens the menu of an item that
/// is one, and activates any other; the second asks for the secondary action; the
/// third opens the menu, or asks the item to show its own.
pub open spec fn click_of(
    button: u32,
    item: TrayItem,
    menu: Option<TrayMenu>,
    shown: bool,
    x: i32,
    y: i32,
) -> ClickModel {
    let bus = item.bus_name@;
    let path = item.object_path@;
    if has_menu(item, menu) && shown && ((button == 1 && item.item_is_menu) || button == 3) {
        ClickModel::Popup(RequestModel::AboutToShow { bus, menu: item.menu_path->0@, id: 0 })
    } else if button == 1 {
        ClickModel::Send(RequestModel::Default { bus, path, x, y })
    } else if button == 2 {
        ClickModel::Send(RequestModel::Secondary { bus, path, x, y })
    } else if button == 3 {
        ClickModel::Send(RequestModel::ContextMenu { bus, path, x, y })
    } else {
        ClickModel::Ignore
    }
}

/// What a click with a button does, at a place on the screen. `shown` says that the
/// item's button is still there.
pub fn click(
    button: u32,
    item: &TrayItem,
    menu: &Option<TrayMenu>,
    shown: bool,
    x: i32,
    y: i32,
) -> (r: TrayClick)
    ensures
        r.model() == click_of(button, *item, *menu, shown, x, y),
{
    let filled: bool = match menu {
        Some(m) => m.submenus.len() > 0,
        None => false,
    };
    if filled && shown && ((button == 1 && item.item_is_menu) || button == 3) {
        if let Some(p) = &item.menu_path {
            return TrayClick::Popup(
                ActivateRequest::AboutToShow {
                    bus_name: item.bus_name.clone(),
                    menu_path: p.clone(),
                    id: 0,
                },
            );
        }
    }
    if button == 1 {
        TrayClick::Send(
            ActivateRequest::Default {
                bus_name: item.bus_name.clone(),
                object_path: item.object_path.clone(),
                x,
                y,
            },
        )
    } else if button == 2 {
        TrayClick::Send(
            ActivateRequest::Secondary {
                bus_name: item.bus_name.clone(),
                object_path: item.object_path.clone(),
                x,
                y,
            },
        )
    } else if button == 3 {
        TrayClick::Send(
            ActivateRequest::ContextMenu {
                bus_name: item.bus_name.clone(),
                object_path: item.object_path.clone(),
                x,
                y,
            },
        )
    } else {
        TrayClick::Ignore
    }
}

/// A direction of scrolling.
#[derive(Clone, Copy, Debug, PartialEq, Eq, Structural)]
pub enum TrayScroll {
    Up,
    Down,
    Left,
    Right,
    Smooth,
}

/// What scrolling over an item asks of it. Smooth scrolling asks nothing.
pub open spec fn scroll_of(d: TrayScroll, item: TrayItem) -> Option<RequestModel> {
    let bus = item.bus_name@;
    let path = item.object_path@;
    match d {
        TrayScroll::Up => Some(
            RequestModel::Scroll { bus, path, delta: (-1) as i32, orientation: "vertical"@ },
        ),
        TrayScroll::Down => Some(
            RequestModel::Scroll { bus, path, delta: 1, orientation: "vertical"@ },
        ),
        TrayScroll::Left => Some(
            RequestModel::Scroll { bus, path, delta: (-1) as i32, orientation: "horizontal"@ },
        ),
        TrayScroll::Right => Some(
            RequestModel::Scroll { bus, path, delta: 1, orientation: "horizontal"@ },
        ),
        TrayScroll::Smooth => None,
    }
}

/// What scrolling over an item asks of it.
pub fn scroll(d: TrayScroll, item: &TrayItem) -> (r: Option<ActivateRequest>)
    ensures
        match r {
            Some(q) => scroll_of(d, *item) == Some(q.model()),
            None => scroll_of(d, *item) is None,
        },
{
    let (delta, orientation): (i32, &str) = match d {
        TrayScroll::Up => (-1, "vertical"),
        TrayScroll::Down => (1, "vertical"),
        TrayScroll::Left => (-1, "horizontal"),
        TrayScroll::Right => (1, "horizontal"),
        TrayScroll::Smooth => return None,
    };
    Some(
        ActivateRequest::Scroll {
            bus_name: item.bus_name.clone(),
            object_path: item.object_path.clone(),
            delta,
            orientation: orientation.to_owned(),
        },
    )
}

/// A side of a widget.
#[derive(Clone, Copy, Debug, PartialEq, Eq, Structural)]
pub enum Gravity {
    North,
    South,
    East,
    West,
}

/// The side of a button at which its menu opens, and the side of the menu that
/// touches it: the one away from the edge of the screen, and its opposite.
pub fn popup_gravity(position: BarPosition) -> (r: (Gravity, Gravity))
    ensures
        r == (match position {
            BarPosition::Left => (Gravity::East, Gravity::West),
            BarPosition::Right => (Gravity::West, Gravity::East),
            BarPosition::Top => (Gravity::South, Gravity::North),
            BarPosition::Bottom => (Gravity::North, Gravity::South),
        }),
{
    match position {
        BarPosition::Left => (Gravity::East, Gravity::West),
        BarPosition::Right => (Gravity::West, Gravity::East),
        BarPosition::Top => (Gravity::South, Gravity::North),
        BarPosition::Bottom => (Gravity::North, Gravity::South),
    }
}

// ---------------------------------------------------------------------------
// Buttons
// ---------------------------------------------------------------------------

/// The tray of one bar: the keys of the items that have a button, in the order of
/// the buttons.
#[derive(Debug)]
pub struct TrayWidget {
    pub icon_size: i32,
    pub keys: Vec<String>,
}

/// Any key but one.
pub open spec fn other_than(key: Seq<char>) -> spec_fn(Seq<char>) -> bool {
    |k: Seq<char>| k != key
}

/// The keys without one.
pub open spec fn without_key(keys: Seq<Seq<char>>, key: Seq<char>) -> Seq<Seq<char>> {
    keys.filter(other_than(key))
}

/// The text that an item's button shows on hover: the title and the description of
/// the tooltip, one of them where the other is blank or the same, else the title of
/// the item.
pub open spec fn tooltip_text(
    title: Option<Seq<char>>,
    tooltip: Option<(Seq<char>, Seq<char>)>,
) -> Option<Seq<char>> {
    let (t, d) = match tooltip {
        Some((t, d)) => (text::trimmed(t), text::trimmed(d)),
        None => (Seq::empty(), Seq::empty()),
    };
    if t.len() > 0 && d.len() > 0 {
        if text::same_but_case(t, d) {
            Some(t)
        } else {
            Some(t + ": "@ + d)
        }
    } else if d.len() > 0 {
        Some(d)
    } else if t.len() > 0 {
        Some(t)
    } else {
        match title {
            Some(s) => if text::trimmed(s).len() > 0 {
                Some(text::trimmed(s))
            } else {
                None
            },
            None => None,
        }
    }
}

/// The title and the description of a tooltip that may be there.
pub open spec fn tooltip_view(t: Option<&TrayTooltip>) -> Option<(Seq<char>, Seq<char>)> {
    match t {
        Some(t) => Some((t.title@, t.description@)),
        None => None,
    }
}

fn own_title(title: Option<&str>) -> (r: Option<String>)
    ensures
        text::opt(r) == tooltip_text(text::opt_str(title), None),
{
    match title {
        Some(s) => {
            let t: String = text::trim(s);
            if t.as_str().unicode_len() > 0 {
                Some(t)
            } else {
                None
            }
        },
        None => None,
    }
}

impl TrayWidget {
    /// A tray without buttons. A size of zero or below stands for the usual one.
    pub fn new(icon_size: i32) -> (r: Self)
        ensures
            r.icon_size == (if icon_size <= 0 {
                22
            } else {
                icon_size as int
            }),
            r.keys@.len() == 0,
    {
        TrayWidget {
            icon_size: if icon_size <= 0 {
                22
            } else {
                icon_size
            },
            keys: Vec::new(),
        }
    }

    /// The size of a button around an icon.
    pub fn button_size(&self) -> (r: i32)
        ensures
            r == (if self.icon_size <= i32::MAX - 6 {
                self.icon_size + 6
            } else {
                i32::MAX as int
            }),
    {
        if self.icon_size <= i32::MAX - 6 {
            self.icon_size + 6
        } else {
            i32::MAX
        }
    }

    /// Whether an item has a button.
    pub fn has_button(&self, key: &str) -> (r: bool)
        ensures
            r == text::strs(self.keys@).contains(key@),
    {
        text::list_has(&self.keys, key)
    }

    /// Takes the button of an item away. Says whether there was one.
    pub fn remove_button(&mut self, key: &str) -> (r: bool)
        ensures
            r == text::strs(old(self).keys@).contains(key@),
            text::strs(final(self).keys@) == without_key(text::strs(old(self).keys@), key@),
            final(self).icon_size == old(self).icon_size,
    {
        let had: bool = text::list_has(&self.keys, key);
        let ghost before: Seq<Seq<char>> = text::strs(self.keys@);
        let ghost keep = other_than(key@);
        let mut kept: Vec<String> = Vec::new();
        let mut i: usize = 0;
        assert(text::strs(kept@) =~= before.take(0).filter(keep)) by {
            reveal(Seq::filter);
        }
        while i < self.keys.len()
            invariant
                i <= self.keys@.len(),
                before == text::strs(self.keys@),
                keep == other_than(key@),
                text::strs(kept@) == before.take(i as int).filter(keep),
                self.icon_size == old(self).icon_size,
                before == text::strs(old(self).keys@),
            decreases self.keys@.len() - i,
        {
            proof {
                reveal(Seq::filter);
                assert(before.take(i + 1).drop_last() =~= before.take(i as int));
                assert(before.take(i + 1).last() == self.keys@[i as int]@);
            }
            if !text::same(self.keys[i].as_str(), key) {
                let ghost so_far: Seq<String> = kept@;
                kept.push(self.keys[i].clone());
                assert(text::strs(kept@) =~= text::strs(so_far).push(self.keys@[i as int]@));
            }
            i = i + 1;
        }
        assert(before.take(i as int) =~= before);
        self.keys = kept;
        had
    }

    /// Puts a button for an item last, in place of the one that it has. Says whether
    /// it had one.
    pub fn add_button(&mut self, key: &str) -> (r: bool)
        ensures
            r == text::strs(old(self).keys@).contains(key@),
            text::strs(final(self).keys@) == without_key(text::strs(old(self).keys@), key@).push(key@),
            final(self).icon_size == old(self).icon_size,
    {
        let had: bool = self.remove_button(key);
        let ghost before: Seq<String> = self.keys@;
        self.keys.push(key.to_owned());
        assert(text::strs(self.keys@) =~= text::strs(before).push(key@));
        had
    }

    /// The text that an item's button shows on hover.
    pub fn compute_tooltip(title: Option<&str>, tooltip: Option<&TrayTooltip>) -> (r: Option<String>)
        ensures
            text::opt(r) == tooltip_text(text::opt_str(title), tooltip_view(tooltip)),
    {
        match tooltip {
            Some(tt) => {
                let t: String = text::trim(tt.title.as_str());
                let d: String = text::trim(tt.description.as_str());
                if t.as_str().unicode_len() > 0 && d.as_str().unicode_len() > 0 {
                    if text::eq_ignore_ascii_case(t.as_str(), d.as_str()) {
                        Some(t)
                    } else {
                        let mut s: String = t.clone();
                        s.append(": ");
                        s.append(d.as_str());
                        Some(s)
                    }
                } else if d.as_str().unicode_len() > 0 {
                    Some(d)
                } else if t.as_str().unicode_len() > 0 {
                    Some(t)
                } else {
                    own_title(title)
                }
            },
            None => own_title(title),
        }
    }
}

/// No key stands twice.
pub open spec fn keys_differ(keys: Seq<Seq<char>>) -> bool {
    keys.no_duplicates()
}

/// An item that came has one button, which is the last; no other item loses or
/// gains one.
pub proof fn law_item_has_one_button(keys: Seq<Seq<char>>, key: Seq<char>)
    requires
        keys_differ(keys),
    ensures
        keys_differ(without_key(keys, key).push(key)),
        !without_key(keys, key).contains(key),
        forall|k: Seq<char>|
            k != key ==> (#[trigger] without_key(keys, key).push(key).contains(k) == keys.contains(k)),
    decreases keys.len(),
{
    let keep = other_than(key);
    let rest = without_key(keys, key);
    assert forall|k: Seq<char>| #[trigger] rest.contains(k) implies keys.contains(k) && k != key by {
        let i = choose|i: int| 0 <= i < rest.len() && rest[i] == k;
        keys.filter_lemma(keep);
        keys.lemma_filter_contains_rev(keep, rest[i]);
        assert(keep(rest[i]));
    }
    lemma_filter_differ(keys, key);
    let all = rest.push(key);
    assert forall|k: Seq<char>| k != key implies (#[trigger] all.contains(k) == keys.contains(k)) by {
        if all.contains(k) {
            let i = choose|i: int| 0 <= i < all.len() && all[i] == k;
            assert(rest[i] == k);
            assert(rest.contains(k));
        }
        if keys.contains(k) {
            let i = choose|i: int| 0 <= i < keys.len() && keys[i] == k;
            keys.filter_lemma(keep);
            assert(keep(keys[i]));
            assert(rest.contains(keys[i]));
            let j = choose|j: int| 0 <= j < rest.len() && rest[j] == k;
            assert(all[j] == k);
        }
    }
    assert forall|i: int, j: int| 0 <= i < all.len() && 0 <= j < all.len() && i != j implies all[i]
        != all[j] by {
        if i == rest.len() {
            assert(rest.contains(rest[j]));
        } else if j == rest.len() {
            assert(rest.contains(rest[i]));
        } else {
            assert(rest[i] != rest[j]);
        }
    }
}

proof fn lemma_filter_differ(keys: Seq<Seq<char>>, key: Seq<char>)
    requires
        keys_differ(keys),
    ensures
        keys_differ(without_key(keys, key)),
    decreases keys.len(),
{
    let keep = other_than(key);
    reveal(Seq::filter);
    if keys.len() > 0 {
        let front = keys.drop_last();
        assert(keys_differ(front));
        lemma_filter_differ(front, key);
        let rest = without_key(front, key);
        front.filter_lemma(keep);
        if keep(keys.last()) {
            assert(without_key(keys, key) == rest.push(keys.last()));
            assert(!rest.contains(keys.last())) by {
                if rest.contains(keys.last()) {
                    let i = choose|i: int| 0 <= i < rest.len() && rest[i] == keys.last();
                    front.lemma_filter_contains_rev(keep, rest[i]);
                    let j = choose|j: int| 0 <= j < front.len() && front[j] == rest[i];
                    assert(keys[j] == keys[keys.len() - 1]);
                }
            }
        }
    }
}

// ---------------------------------------------------------------------------
// What is shown of a menu
// ---------------------------------------------------------------------------

/// An entry is shown with its label, without underscores and without white space at its
/// ends. One without a label is shown with none.
pub proof fn law_entry_is_shown_with_its_label(m: MenuItem)
    ensures
        m.label matches Some(l) ==> shown_label(m.model()) == text::trimmed(l@.filter(|c: char| c != '_')),
        m.label is None ==> shown_label(m.model()).len() == 0,
{
    if let Some(l) = m.label {
        protocol::law_label_is_what_was_sent(l@);
    } else {
        let none = Seq::<char>::empty();
        protocol::law_label_is_what_was_sent(none);
        reveal(Seq::filter);
        assert(none.filter(|c: char| c != '_') =~= none);
        text::lemma_trimmed_start(none);
        text::lemma_trimmed_end(text::trimmed_start(none));
    }
}

/// Only what is visible is shown.
pub proof fn law_invisible_entries_are_left_out(items: Seq<MenuModel>, m: MenuModel)
    requires
        !m.visible,
    ensures
        rows_of(items.push(m)).rows == rows_of(items).rows,
{
    assert(items.push(m).subrange(0, items.len() as int) =~= items);
}

/// A visible separator is shown behind any other row, and nowhere else.
pub proof fn law_separator_follows_a_row(items: Seq<MenuModel>, m: MenuModel)
    requires
        m.visible,
        m.is_separator,
    ensures
        rows_of(items).rows.len() > 0 && !(rows_of(items).rows.last() is Separator) ==> rows_of(items.push(m)).rows
            == rows_of(items).rows.push(RowModel::Separator),
        rows_of(items).rows.len() == 0 || rows_of(items).rows.last() is Separator ==> rows_of(items.push(m)).rows
            == rows_of(items).rows,
{
    assert(items.push(m).subrange(0, items.len() as int) =~= items);
    law_separators_follow_entries(items);
}

/// The label of the last row that is no separator.
pub open spec fn last_named(rows: Seq<RowModel>) -> Option<Seq<char>>
    decreases rows.len(),
{
    if rows.len() == 0 {
        None
    } else {
        match rows.last() {
            RowModel::Separator => last_named(rows.drop_last()),
            RowModel::Submenu { label, .. } => Some(label),
            RowModel::Item { label, .. } => Some(label),
        }
    }
}

proof fn lemma_last_named(items: Seq<MenuModel>)
    ensures
        rows_of(items).last_label == last_named(rows_of(items).rows),
    decreases items,
{
    if items.len() > 0 {
        let before = items.subrange(0, items.len() - 1);
        lemma_last_named(before);
        let a = rows_of(before).rows;
        let b = rows_of(items).rows;
        if b.len() > a.len() {
            assert(b == a.push(b.last()));
            assert(b.drop_last() =~= a);
        }
    }
}

/// A visible entry without a submenu is shown as a row of its own, with its number, its
/// label and whether it can be chosen; and with a mark where it can be switched, which is
/// set if and only if its state is one. It is left out where it has no label, or the label
/// of the row before it.
pub proof fn law_entry_is_a_row(items: Seq<MenuModel>, m: MenuModel)
    requires
        m.visible,
        !m.is_separator,
        m.submenu.len() == 0,
    ensures
        shown_label(m).len() == 0 || last_named(rows_of(items).rows) == Some(shown_label(m)) ==> rows_of(
            items.push(m),
        ).rows == rows_of(items).rows,
        shown_label(m).len() > 0 && last_named(rows_of(items).rows) != Some(shown_label(m)) ==> {
            let r = rows_of(items.push(m)).rows;
            &&& r.len() == rows_of(items).rows.len() + 1
            &&& r.drop_last() == rows_of(items).rows
            &&& r.last() matches RowModel::Item { id, label, enabled, check } && id == m.id && label == shown_label(m)
                && enabled == m.enabled && (m.toggle_type is None ==> check is None) && (m.toggle_type is Some ==> check
                == Some(m.toggle_state == 1))
        },
{
    assert(items.push(m).subrange(0, items.len() as int) =~= items);
    lemma_last_named(items);
    let r = rows_of(items.push(m)).rows;
    if r.len() > rows_of(items).rows.len() {
        assert(r.drop_last() =~= rows_of(items).rows);
    }
}

/// A visible entry with a submenu is shown as a row that opens the rows of the submenu. Where
/// the submenu holds nothing but another one with the same label or with none, the row opens
/// the rows of that.
pub proof fn law_submenu_is_a_row(items: Seq<MenuModel>, m: MenuModel)
    requires
        m.visible,
        !m.is_separator,
        m.submenu.len() > 0,
    ensures
        ({
            let r = rows_of(items.push(m)).rows;
            let c = m.submenu[0];
            let wraps = m.submenu.len() == 1 && c.submenu.len() > 0 && (shown_label(c) == shown_label(m)
                || shown_label(c).len() == 0);
            &&& r.len() == rows_of(items).rows.len() + 1
            &&& r.drop_last() == rows_of(items).rows
            &&& r.last() matches RowModel::Submenu { label, enabled, rows } && label == shown_label(m) && enabled
                == m.enabled && (wraps ==> rows == rows_of(c.submenu).rows) && (!wraps ==> rows == rows_of(
                m.submenu,
            ).rows)
        }),
{
    let all = items.push(m);
    assert(all.subrange(0, items.len() as int) =~= items);
    assert(all[all.len() - 1] == m);
    let r = rows_of(all).rows;
    assert(r.drop_last() =~= rows_of(items).rows);
}

/// A menu without entries has no rows.
pub proof fn law_empty_menu_has_no_rows()
    ensures
        rows_of(Seq::empty()).rows.len() == 0,
{
}

/// Rows say what they show.
pub proof fn law_rows_say_what_they_show(r: MenuRow)
    ensures
        r.model() is Separator <==> r is Separator,
        r.model() matches RowModel::Item { id, label, enabled, check } ==> (r matches MenuRow::Item {
            id: i,
            label: l,
            enabled: e,
            check: c,
        } && i == id && l@ == label && e == enabled && c == check),
        r.model() matches RowModel::Submenu { label, enabled, rows } ==> (r matches MenuRow::Submenu {
            label: l,
            enabled: e,
            rows: s,
        } && l@ == label && e == enabled && s@.len() == rows.len() && forall|i: int|
            0 <= i < rows.len() ==> #[trigger] rows[i] == s@[i].model()),
{
}

// ---------------------------------------------------------------------------
// What clicks and scrolling ask for
// ---------------------------------------------------------------------------

/// A request asks an item at a place.
pub open spec fn asks_at(bus_name: String, object_path: String, item: TrayItem) -> bool {
    bus_name@ == item.bus_name@ && object_path@ == item.object_path@
}

/// An item that has a menu opens it at a click with the third button, and at one with the
/// first where it is nothing but a menu. The menu is told before.
pub proof fn law_menu_opens_at_its_buttons(
    button: u32,
    item: TrayItem,
    menu: TrayMenu,
    path: String,
    x: i32,
    y: i32,
    r: TrayClick,
)
    requires
        r.model() == click_of(button, item, Some(menu), true, x, y),
        item.menu_path == Some(path),
        menu.submenus@.len() > 0,
        button == 3 || (button == 1 && item.item_is_menu),
    ensures
        r matches TrayClick::Popup(ActivateRequest::AboutToShow { bus_name, menu_path, id }) && bus_name@
            == item.bus_name@ && menu_path@ == path@ && id == 0,
{
}

/// Without a menu to open, the first button activates an item, the second asks for its
/// secondary action and the third for its own menu, at the place of the click. Other
/// buttons do nothing.
pub proof fn law_buttons_ask_for_their_actions(
    button: u32,
    item: TrayItem,
    menu: Option<TrayMenu>,
    shown: bool,
    x: i32,
    y: i32,
    r: TrayClick,
)
    requires
        r.model() == click_of(button, item, menu, shown, x, y),
        !shown || item.menu_path is None || menu is None || menu->0.submenus@.len() == 0 || (button == 1
            && !item.item_is_menu) || (button != 1 && button != 3),
    ensures
        button == 1 ==> (r matches TrayClick::Send(ActivateRequest::Default { bus_name, object_path, x: a, y: b })
            && asks_at(bus_name, object_path, item) && a == x && b == y),
        button == 2 ==> (r matches TrayClick::Send(ActivateRequest::Secondary { bus_name, object_path, x: a, y: b })
            && asks_at(bus_name, object_path, item) && a == x && b == y),
        button == 3 ==> (r matches TrayClick::Send(ActivateRequest::ContextMenu { bus_name, object_path, x: a, y: b })
            && asks_at(bus_name, object_path, item) && a == x && b == y),
        button == 0 || button > 3 ==> r is Ignore,
{
}

/// Scrolling up or left is a step back, down or right a step on; up and down are vertical,
/// left and right horizontal. Smooth scrolling asks for nothing.
pub proof fn law_scrolling_asks_for_a_step(d: TrayScroll, item: TrayItem, q: ActivateRequest)
    ensures
        scroll_of(d, item) is None <==> d is Smooth,
        scroll_of(d, item) == Some(q.model()) ==> (q matches ActivateRequest::Scroll {
            bus_name,
            object_path,
            delta,
            orientation,
        } && asks_at(bus_name, object_path, item) && (delta == -1 <==> d is Up || d is Left) && (delta == 1 <==> d is Down
            || d is Right) && (d is Up || d is Down ==> orientation@ == "vertical"@) && (d is Left || d is Right
            ==> orientation@ == "horizontal"@)),
{
}

/// The text on hover: title and description of the tooltip, joined; one of them alone where
/// the other is blank, or where they say the same; else the title of the item.
pub proof fn law_hover_text_is_joined(title: Option<String>, t: TrayTooltip, r: Option<String>)
    requires
        text::opt(r) == tooltip_text(text::opt(title), tooltip_view(Some(&t))),
    ensures
        ({
            let a = text::trimmed(t.title@);
            let b = text::trimmed(t.description@);
            &&& a.len() > 0 && b.len() > 0 && !text::same_but_case(a, b) ==> r is Some && r->0@ == a + ": "@ + b
            &&& a.len() > 0 && b.len() > 0 && text::same_but_case(a, b) ==> r is Some && r->0@ == a
            &&& a.len() > 0 && b.len() == 0 ==> r is Some && r->0@ == a
            &&& a.len() == 0 && b.len() > 0 ==> r is Some && r->0@ == b
            &&& a.len() == 0 && b.len() == 0 ==> match title {
                Some(s) => if text::trimmed(s@).len() > 0 {
                    r is Some && r->0@ == text::trimmed(s@)
                } else {
                    r is None
                },
                None => r is None,
            }
        }),
{
}

/// Without a tooltip, the text on hover is the title of the item, unless that is blank.
pub proof fn law_hover_text_is_the_title_else(title: Option<String>, r: Option<String>)
    requires
        text::opt(r) == tooltip_text(text::opt(title), tooltip_view(None)),
    ensures
        title is None ==> r is None,
        title matches Some(s) ==> (text::trimmed(s@).len() == 0 ==> r is None) && (text::trimmed(s@).len() > 0
            ==> r is Some && r->0@ == text::trimmed(s@)),
{
}

/// The rows of a menu stand for what they show one by one.
pub proof fn law_rows_stand_in_their_order(v: Seq<MenuRow>, i: int)
    requires
        0 <= i < v.len(),
    ensures
        row_models(v).len() == v.len(),
        row_models(v)[i] == v[i].model(),
{
}

} // verus!
