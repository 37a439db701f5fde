//! Reading what items send over the bus: addresses, icons, tooltips and menus.
use vstd::prelude::*;

use crate::icon::{RawIconPixmap, MAX_DIM};
use crate::modules::tray::types;
use crate::modules::tray::types::{MenuItem, MenuModel, ToggleType, TrayTooltip};
use crate::names::NameMap;
use crate::sorting;
use crate::text;

verus! {

/// A value as the bus carries it.
#[derive(Debug)]
pub enum Variant {
    Byte(u8),
    Bool(bool),
    I16(i16),
    U16(u16),
    I32(i32),
    U32(u32),
    Str(String),
    ObjectPath(String),
    Array(Vec<Variant>),
    Structure(Vec<Variant>),
    /// A table whose keys are texts.
    Dict(Vec<(String, Variant)>),
    /// A value within a value.
    Boxed(Box<Variant>),
    /// A value of a kind that the tray does not read.
    Other,
}

// ---------------------------------------------------------------------------
// Addresses
// ---------------------------------------------------------------------------

/// The path that items use unless they say otherwise.
pub open spec fn default_path() -> Seq<char> {
    "/StatusNotifierItem"@
}

/// The bus name, the path and the key that an address stands for. An address is a
/// path, which belongs to the sender; a name with a path behind it; or a name.
pub open spec fn address(service: Seq<char>, sender: Option<Seq<char>>) -> (
    Seq<char>,
    Seq<char>,
    Seq<char>,
) {
    let s = text::trimmed(service);
    if s.len() > 0 && s[0] == '/' {
        let bus = match sender {
            Some(n) => n,
            None => Seq::empty(),
        };
        (bus, s, bus + s)
    } else if s.contains('/') {
        let at = text::char_from(s, '/', 0);
        let bus = s.take(at);
        let rest = s.skip(at + 1);
        let path = if rest.len() > 0 && rest[0] == '/' {
            rest
        } else {
            "/"@ + rest
        };
        (bus, path, bus + path)
    } else {
        (s, default_path(), s + default_path())
    }
}

fn begins_with_slash(s: &str) -> (r: bool)
    ensures
        r == (s@.len() > 0 && s@[0] == '/'),
{
    let cs: Vec<char> = text::chars_of(s);
    cs.len() > 0 && cs[0] == '/'
}

/// The bus name, the path and the key of an item's address.
pub fn parse_item_address(service: &str, sender_opt: Option<&str>) -> (r: (String, String, String))
    ensures
        (r.0@, r.1@, r.2@) == address(service@, text::opt_str(sender_opt)),
{
    let s: String = text::trim(service);
    if begins_with_slash(s.as_str()) {
        let bus: String = match sender_opt {
            Some(n) => n.to_owned(),
            None => String::new(),
        };
        let key: String = text::concat(bus.as_str(), s.as_str());
        return (bus, s, key);
    }
    match text::split_once(s.as_str(), '/') {
        Some((bus, rest)) => {
            let path: String = if begins_with_slash(rest.as_str()) {
                rest
            } else {
                text::concat("/", rest.as_str())
            };
            let key: String = text::concat(bus.as_str(), path.as_str());
            (bus, path, key)
        },
        None => {
            let path: String = "/StatusNotifierItem".to_owned();
            let key: String = text::concat(s.as_str(), path.as_str());
            (s, path, key)
        },
    }
}

/// The key of an item is its bus name followed by its path.
pub proof fn law_key_is_bus_and_path(service: Seq<char>, sender: Option<Seq<char>>)
    ensures
        address(service, sender).2 == address(service, sender).0 + address(service, sender).1,
{
}

/// The key of an item leads back to its bus name and its path.
pub proof fn law_key_is_read_back(bus: Seq<char>, path: Seq<char>)
    requires
        bus.len() > 0,
        !bus.contains('/'),
        path.len() > 0,
        path[0] == '/',
        text::trimmed(bus + path) == bus + path,
        path.len() < 2 || path[1] != '/',
    ensures
        address(bus + path, None) == (bus, path, bus + path),
{
    let s = bus + path;
    text::lemma_char_from(s, '/', 0);
    let at = text::char_from(s, '/', 0);
    assert(s[bus.len() as int] == '/');
    assert(s.contains('/'));
    assert(at == bus.len()) by {
        if at < bus.len() {
            assert(s[at] == bus[at]);
            assert(bus.contains(bus[at]));
        }
    }
    assert(s[0] == bus[0]);
    assert(bus.contains(bus[0]));
    assert(s.take(at) =~= bus);
    reveal_strlit("/");
    assert("/"@ + s.skip(at + 1) =~= path);
    if path.len() > 1 {
        assert(s.skip(at + 1)[0] == path[1]);
    }
}

// ---------------------------------------------------------------------------
// Icons
// ---------------------------------------------------------------------------

/// The largest number of icons that is kept of an item.
pub const MAX_PIXMAPS: usize = 8;

/// The number that a value is, as a width or a height.
pub open spec fn dimension(v: Variant) -> Option<int> {
    match v {
        Variant::I32(n) => Some(n as int),
        Variant::U32(n) => Some(
            if n <= i32::MAX {
                n as int
            } else {
                i32::MAX as int
            },
        ),
        Variant::I16(n) => Some(n as int),
        Variant::U16(n) => Some(n as int),
        _ => None,
    }
}

/// Every value is a byte.
pub open spec fn all_bytes(v: Seq<Variant>) -> bool {
    forall|i: int| 0 <= i < v.len() ==> (#[trigger] v[i]) is Byte
}

/// What an icon in pixels says.
pub ghost struct PixmapModel {
    pub width: int,
    pub height: int,
    pub pixels: Seq<u8>,
}

/// What an icon says.
pub open spec fn pixmap_model(p: RawIconPixmap) -> PixmapModel {
    PixmapModel { width: p.width as int, height: p.height as int, pixels: p.pixels@ }
}

/// What icons say.
pub open spec fn pixmap_models(v: Seq<RawIconPixmap>) -> Seq<PixmapModel> {
    v.map_values(|p: RawIconPixmap| pixmap_model(p))
}

/// The icon that a value is: a width and a height within bounds, and four bytes
/// for each pixel, no more and no fewer.
pub open spec fn pixmap_of(v: Variant) -> Option<PixmapModel> {
    match v {
        Variant::Structure(f) => if f@.len() >= 3 {
            match (dimension(f@[0]), dimension(f@[1]), f@[2]) {
                (Some(w), Some(h), Variant::Array(data)) => if 0 < w <= MAX_DIM && 0 < h <= MAX_DIM
                    && data@.len() == w * h * 4 && all_bytes(data@) {
                    Some(
                        PixmapModel {
                            width: w,
                            height: h,
                            pixels: Seq::new(data@.len(), |i: int| data@[i]->Byte_0),
                        },
                    )
                } else {
                    None
                },
                _ => None,
            }
        } else {
            None
        },
        _ => None,
    }
}

/// The icons among values.
pub open spec fn pixmaps_in(a: Seq<Variant>) -> Seq<PixmapModel>
    decreases a.len(),
{
    if a.len() == 0 {
        Seq::empty()
    } else {
        match pixmap_of(a.last()) {
            Some(p) => pixmaps_in(a.drop_last()).push(p),
            None => pixmaps_in(a.drop_last()),
        }
    }
}

/// The front of a sequence, of at most `n` values.
pub open spec fn front<T>(s: Seq<T>, n: int) -> Seq<T> {
    if s.len() <= n {
        s
    } else {
        s.take(n)
    }
}

/// The icons that are kept of an item: the first ones, of the first values.
pub open spec fn kept_pixmaps(a: Seq<Variant>) -> Seq<PixmapModel> {
    front(pixmaps_in(front(a, MAX_PIXMAPS + 1)), MAX_PIXMAPS as int)
}

/// The number of pixels of an icon.
pub open spec fn area() -> spec_fn(PixmapModel) -> int {
    |p: PixmapModel| p.width * p.height
}

proof fn lemma_pixmaps_in_bounds(a: Seq<Variant>, i: int)
    requires
        0 <= i < pixmaps_in(a).len(),
    ensures
        0 < pixmaps_in(a)[i].width <= MAX_DIM,
        0 < pixmaps_in(a)[i].height <= MAX_DIM,
        pixmaps_in(a)[i].pixels.len() == pixmaps_in(a)[i].width * pixmaps_in(a)[i].height * 4,
    decreases a.len(),
{
    if a.len() > 0 && i < pixmaps_in(a.drop_last()).len() {
        lemma_pixmaps_in_bounds(a.drop_last(), i);
    }
}

/// Whatever an item sends as its icons, those that are kept are few, within bounds,
/// and hold four bytes for each pixel.
pub proof fn law_icons_are_bounded(a: Seq<Variant>)
    ensures
        kept_pixmaps(a).len() <= MAX_PIXMAPS,
        forall|i: int|
            0 <= i < kept_pixmaps(a).len() ==> {
                let p = #[trigger] kept_pixmaps(a)[i];
                0 < p.width <= MAX_DIM && 0 < p.height <= MAX_DIM && p.pixels.len() == p.width
                    * p.height * 4
            },
{
    let c = front(a, MAX_PIXMAPS + 1);
    assert forall|i: int| 0 <= i < kept_pixmaps(a).len() implies {
        let p = #[trigger] kept_pixmaps(a)[i];
        0 < p.width <= MAX_DIM && 0 < p.height <= MAX_DIM && p.pixels.len() == p.width * p.height * 4
    } by {
        lemma_pixmaps_in_bounds(c, i);
        assert(kept_pixmaps(a)[i] == pixmaps_in(c)[i]);
    }
}

/// The icons of the front come first.
proof fn lemma_pixmaps_front(a: Seq<Variant>, k: int)
    requires
        0 <= k <= a.len(),
    ensures
        pixmaps_in(a.take(k)).len() <= pixmaps_in(a).len(),
        pixmaps_in(a).take(pixmaps_in(a.take(k)).len() as int) == pixmaps_in(a.take(k)),
    decreases a.len() - k,
{
    if k < a.len() {
        let b = a.take(k + 1);
        assert(b.drop_last() =~= a.take(k));
        lemma_pixmaps_front(a, k + 1);
        assert(pixmaps_in(a).take(pixmaps_in(a.take(k)).len() as int) =~= pixmaps_in(a.take(k)));
    } else {
        assert(a.take(k) =~= a);
        assert(pixmaps_in(a).take(pixmaps_in(a).len() as int) =~= pixmaps_in(a));
    }
}

fn read_dimension(v: &Variant) -> (r: Option<i32>)
    ensures
        match r {
            Some(n) => dimension(*v) == Some(n as int),
            None => dimension(*v) is None,
        },
{
    match v {
        Variant::I32(n) => Some(*n),
        Variant::U32(n) => {
            if *n <= i32::MAX as u32 {
                Some(*n as i32)
            } else {
                Some(i32::MAX)
            }
        },
        Variant::I16(n) => Some(*n as i32),
        Variant::U16(n) => Some(*n as i32),
        _ => None,
    }
}

fn read_bytes(data: &Vec<Variant>) -> (r: Option<Vec<u8>>)
    ensures
        match r {
            Some(b) => all_bytes(data@) && b@ == Seq::new(data@.len(), |i: int| data@[i]->Byte_0),
            None => !all_bytes(data@),
        },
{
    let mut b: Vec<u8> = Vec::new();
    let mut i: usize = 0;
    while i < data.len()
        invariant
            i <= data@.len(),
            b@.len() == i,
            forall|j: int| 0 <= j < i ==> (#[trigger] data@[j]) is Byte && b@[j] == data@[j]->Byte_0,
        decreases data@.len() - i,
    {
        match &data[i] {
            Variant::Byte(x) => b.push(*x),
            _ => {
                assert(!(data@[i as int] is Byte));
                return None;
            },
        }
        i = i + 1;
    }
    assert(b@ =~= Seq::new(data@.len(), |i: int| data@[i]->Byte_0));
    Some(b)
}

fn read_pixmap(v: &Variant) -> (r: Option<RawIconPixmap>)
    ensures
        match r {
            Some(p) => pixmap_of(*v) == Some(pixmap_model(p)) && 0 < p.width <= MAX_DIM && 0 < p.height
                <= MAX_DIM,
            None => pixmap_of(*v) is None,
        },
{
    let f: &Vec<Variant> = match v {
        Variant::Structure(f) => f,
        _ => return None,
    };
    if f.len() < 3 {
        return None;
    }
    let w: i32 = match read_dimension(&f[0]) {
        Some(n) => n,
        None => return None,
    };
    let h: i32 = match read_dimension(&f[1]) {
        Some(n) => n,
        None => return None,
    };
    if w <= 0 || h <= 0 || w > MAX_DIM || h > MAX_DIM {
        return None;
    }
    assert(0 < w * h <= 512 * 512) by (nonlinear_arith)
        requires
            0 < w <= 512,
            0 < h <= 512,
    ;
    let expected: usize = (w as usize) * (h as usize) * 4;
    match &f[2] {
        Variant::Array(data) => {
            if data.len() != expected {
                return None;
            }
            match read_bytes(data) {
                Some(pixels) => Some(RawIconPixmap { width: w, height: h, pixels }),
                None => None,
            }
        },
        _ => None,
    }
}

fn area_of(p: &RawIconPixmap) -> (r: u64)
    requires
        0 < p.width <= MAX_DIM,
        0 < p.height <= MAX_DIM,
    ensures
        r == area()(pixmap_model(*p)),
{
    assert(0 < p.width * p.height <= 512 * 512) by (nonlinear_arith)
        requires
            0 < p.width <= 512,
            0 < p.height <= 512,
    ;
    (p.width as u64) * (p.height as u64)
}

/// Every icon is within bounds.
pub open spec fn all_in_bounds(v: Seq<RawIconPixmap>) -> bool {
    forall|i: int|
        0 <= i < v.len() ==> 0 < (#[trigger] v[i]).width <= MAX_DIM && 0 < v[i].height <= MAX_DIM
}

fn sort_by_area(v: Vec<RawIconPixmap>) -> (out: Vec<RawIconPixmap>)
    requires
        all_in_bounds(v@),
    ensures
        sorting::stably_sorted(pixmap_models(v@), pixmap_models(out@), area()),
        out@.len() == v@.len(),
{
    let ghost all: Seq<RawIconPixmap> = v@;
    let ghost models: Seq<PixmapModel> = pixmap_models(v@);
    let mut rest: Vec<RawIconPixmap> = v;
    let mut out: Vec<RawIconPixmap> = Vec::new();
    let ghost mut k: int = 0;
    proof {
        sorting::lemma_sorted_empty::<PixmapModel>(area());
        assert(models.take(0) =~= Seq::empty());
        assert(pixmap_models(out@) =~= Seq::empty());
        assert(rest@ =~= all.skip(0));
    }
    while rest.len() > 0
        invariant
            0 <= k <= all.len(),
            rest@ == all.skip(k),
            models == pixmap_models(all),
            all_in_bounds(all),
            all_in_bounds(out@),
            out@.len() == k,
            sorting::stably_sorted(models.take(k), pixmap_models(out@), area()),
        decreases rest@.len(),
    {
        assert(rest@[0] == all[k]);
        let p: RawIconPixmap = rest.remove(0);
        assert(rest@ =~= all.skip(k + 1));
        let key: u64 = area_of(&p);
        let mut pos: usize = out.len();
        while 0 < pos && area_of(&out[pos - 1]) > key
            invariant
                pos <= out@.len(),
                all_in_bounds(out@),
                key == area()(pixmap_model(p)),
                forall|i: int|
                    pos <= i < out@.len() ==> area()(pixmap_model(#[trigger] out@[i])) > key,
            decreases pos,
        {
            pos = pos - 1;
        }
        proof {
            let om = pixmap_models(out@);
            assert forall|i: int| pos <= i < om.len() implies area()(#[trigger] om[i]) > area()(
                pixmap_model(p),
            ) by {
                assert(om[i] == pixmap_model(out@[i]));
            }
            if pos > 0 {
                assert(om[pos - 1] == pixmap_model(out@[pos - 1]));
            }
            sorting::lemma_insert_sorted(models.take(k), om, pos as int, pixmap_model(p), area());
            assert(models.take(k).push(pixmap_model(p)) =~= models.take(k + 1));
            assert(om.insert(pos as int, pixmap_model(p)) =~= pixmap_models(
                out@.insert(pos as int, p),
            ));
            k = k + 1;
        }
        out.insert(pos, p);
    }
    assert(models.take(k) =~= models);
    out
}

/// `r` holds the icons that a value is a list of, smallest first, if there are any
/// that are within bounds.
pub open spec fn are_icons(val: Variant, r: Option<Vec<RawIconPixmap>>) -> bool {
    match val {
        Variant::Array(a) => match r {
            Some(v) => v@.len() > 0 && sorting::stably_sorted(
                kept_pixmaps(a@),
                pixmap_models(v@),
                area(),
            ),
            None => kept_pixmaps(a@).len() == 0,
        },
        _ => r is None,
    }
}

/// The icons that a value is a list of, smallest first. `None` where it holds none
/// that is within bounds.
pub fn parse_icon_pixmap(val: &Variant) -> (r: Option<Vec<RawIconPixmap>>)
    ensures
        are_icons(*val, r),
{
    let a: &Vec<Variant> = match val {
        Variant::Array(a) => a,
        _ => return None,
    };
    let n: usize = if a.len() > MAX_PIXMAPS + 1 {
        MAX_PIXMAPS + 1
    } else {
        a.len()
    };
    let ghost f: Seq<Variant> = front(a@, MAX_PIXMAPS + 1);
    let mut v: Vec<RawIconPixmap> = Vec::new();
    let mut i: usize = 0;
    assert(f =~= a@.take(n as int));
    assert(f.take(0) =~= Seq::empty());
    assert(pixmap_models(v@) =~= Seq::empty());
    while i < n && v.len() < MAX_PIXMAPS
        invariant
            n <= a@.len(),
            n == f.len(),
            f == a@.take(n as int),
            i <= n,
            v@.len() <= MAX_PIXMAPS,
            all_in_bounds(v@),
            pixmap_models(v@) == pixmaps_in(f.take(i as int)),
        decreases n - i,
    {
        assert(f.take(i + 1).drop_last() =~= f.take(i as int));
        assert(f.take(i + 1).last() == a@[i as int]);
        let ghost before: Seq<RawIconPixmap> = v@;
        if let Some(p) = read_pixmap(&a[i]) {
            v.push(p);
            assert(pixmap_models(v@) =~= pixmap_models(before).push(pixmap_model(p)));
        }
        i = i + 1;
    }
    proof {
        lemma_pixmaps_front(f, i as int);
        assert(f.take(n as int) =~= f);
        assert(pixmap_models(v@) =~= kept_pixmaps(a@));
    }
    if v.len() == 0 {
        None
    } else {
        Some(sort_by_area(v))
    }
}

// ---------------------------------------------------------------------------
// Tooltips
// ---------------------------------------------------------------------------

/// The longest tooltip in bytes that is kept as it is, and the number of
/// characters that is kept of a longer one.
pub const MAX_TOOLTIP: usize = 512;

/// The longest label in bytes that is kept as it is, and the number of characters
/// that is kept of a longer one.
pub const MAX_LABEL_LEN: usize = 256;

/// A text of at most `n` bytes as it is, of a longer one the first `n` characters.
pub open spec fn cut(s: Seq<char>, n: int) -> Seq<char> {
    if text::byte_len(s) <= n {
        s
    } else {
        text::first_chars(s, n)
    }
}

fn cut_text(s: &str, n: usize) -> (r: String)
    ensures
        r@ == cut(s@, n as int),
{
    if text::len_bytes(s) <= n {
        s.to_owned()
    } else {
        text::take_chars(s, n)
    }
}

/// Cuts an overlong label.
pub fn truncate_label(s: &str) -> (r: String)
    ensures
        r@ == cut(s@, MAX_LABEL_LEN as int),
{
    cut_text(s, MAX_LABEL_LEN)
}

/// The text of a field of a structure, cut; empty where it is missing or no text.
pub open spec fn tooltip_field(f: Seq<Variant>, i: int) -> Seq<char> {
    if i < f.len() {
        match f[i] {
            Variant::Str(s) => cut(s@, MAX_TOOLTIP as int),
            _ => Seq::empty(),
        }
    } else {
        Seq::empty()
    }
}

/// The title and the description that a value holds as a tooltip.
pub open spec fn tooltip_of(v: Variant) -> Option<(Seq<char>, Seq<char>)> {
    match v {
        Variant::Structure(f) => Some((tooltip_field(f@, 2), tooltip_field(f@, 3))),
        Variant::Str(s) => Some((cut(s@, MAX_TOOLTIP as int), cut(s@, MAX_TOOLTIP as int))),
        _ => None,
    }
}

/// The tooltip among the properties of an item.
pub open spec fn tooltip_in(props: Map<Seq<char>, Variant>) -> Option<(Seq<char>, Seq<char>)> {
    if props.dom().contains("ToolTip"@) {
        tooltip_of(props["ToolTip"@])
    } else if props.dom().contains("Tooltip"@) {
        tooltip_of(props["Tooltip"@])
    } else {
        None
    }
}

/// The title and the description of a tooltip.
pub open spec fn tooltip_texts(t: Option<TrayTooltip>) -> Option<(Seq<char>, Seq<char>)> {
    match t {
        Some(t) => Some((t.title@, t.description@)),
        None => None,
    }
}

fn read_tooltip_field(f: &Vec<Variant>, i: usize) -> (r: String)
    ensures
        r@ == tooltip_field(f@, i as int),
{
    if i < f.len() {
        match &f[i] {
            Variant::Str(s) => cut_text(s.as_str(), MAX_TOOLTIP),
            _ => String::new(),
        }
    } else {
        String::new()
    }
}

/// Reads the tooltip of an item.
pub fn parse_tooltip(props: &NameMap<Variant>) -> (r: Option<TrayTooltip>)
    ensures
        tooltip_texts(r) == tooltip_in(props@),
{
    let val: &Variant = match props.get("ToolTip") {
        Some(v) => v,
        None => match props.get("Tooltip") {
            Some(v) => v,
            None => return None,
        },
    };
    match val {
        Variant::Structure(f) => Some(
            TrayTooltip { title: read_tooltip_field(f, 2), description: read_tooltip_field(f, 3) },
        ),
        Variant::Str(s) => {
            let t: String = cut_text(s.as_str(), MAX_TOOLTIP);
            Some(TrayTooltip { title: t.clone(), description: t })
        },
        _ => None,
    }
}

// ---------------------------------------------------------------------------
// Menus
// ---------------------------------------------------------------------------

/// How many levels of submenus are read.
pub const MAX_MENU_DEPTH: u8 = 8;

/// How many entries of a menu are read.
pub const MAX_MENU_CHILDREN: usize = 500;

/// An entry of a menu as the bus carries it.
#[derive(Debug)]
pub struct RawMenuItem {
    pub id: i32,
    pub props: Vec<(String, Variant)>,
    pub children: Vec<Variant>,
}

/// The id, the properties and the children of an entry.
pub ghost struct RawParts {
    pub id: i32,
    pub props: Seq<(String, Variant)>,
    pub children: Seq<Variant>,
}

impl RawMenuItem {
    /// The entry that a value is.
    pub fn from_value(v: Variant) -> (r: Option<RawMenuItem>)
        ensures
            match r {
                Some(m) => parts_of(v) == Some(
                    RawParts { id: m.id, props: m.props@, children: m.children@ },
                ),
                None => parts_of(v) is None,
            },
        decreases v,
    {
        match v {
            Variant::Structure(fields) => {
                let mut f: Vec<Variant> = fields;
                if f.len() < 3 {
                    return None;
                }
                let id: i32 = match &f[0] {
                    Variant::I32(n) => *n,
                    Variant::U32(n) => #[verifier::truncate] (*n as i32),
                    _ => return None,
                };
                let children: Vec<Variant> = match f.remove(2) {
                    Variant::Array(a) => a,
                    _ => Vec::new(),
                };
                let props: Vec<(String, Variant)> = match f.remove(1) {
                    Variant::Dict(d) => d,
                    _ => Vec::new(),
                };
                Some(RawMenuItem { id, props, children })
            },
            Variant::Boxed(inner) => RawMenuItem::from_value(*inner),
            _ => None,
        }
    }
}

/// The property with a name: the last one, where a name repeats.
pub open spec fn prop(props: Seq<(String, Variant)>, name: Seq<char>) -> Option<Variant>
    decreases props.len(),
{
    if props.len() == 0 {
        None
    } else if props.last().0@ == name {
        Some(props.last().1)
    } else {
        prop(props.drop_last(), name)
    }
}

/// The text that a value is, within other values too.
pub open spec fn str_of(v: Variant) -> Option<Seq<char>>
    decreases v,
{
    match v {
        Variant::Str(s) => Some(s@),
        Variant::Boxed(inner) => str_of(*inner),
        _ => None,
    }
}

/// The truth value that a value is. Numbers other than zero count as true.
pub open spec fn bool_of(v: Variant) -> Option<bool>
    decreases v,
{
    match v {
        Variant::Bool(b) => Some(b),
        Variant::I32(n) => Some(n != 0),
        Variant::U32(n) => Some(n != 0),
        Variant::Boxed(inner) => bool_of(*inner),
        _ => None,
    }
}

/// The number that a value is. Truth values count as one and zero.
pub open spec fn i32_of(v: Variant) -> Option<i32>
    decreases v,
{
    match v {
        Variant::I32(n) => Some(n),
        Variant::U32(n) => Some(n as i32),
        Variant::Bool(b) => Some(
            if b {
                1
            } else {
                0
            },
        ),
        Variant::Boxed(inner) => i32_of(*inner),
        _ => None,
    }
}

/// The id of an entry.
pub open spec fn id_of(v: Variant) -> Option<i32> {
    match v {
        Variant::I32(n) => Some(n),
        Variant::U32(n) => Some(n as i32),
        _ => None,
    }
}

/// The entry that a value is.
pub open spec fn parts_of(v: Variant) -> Option<RawParts>
    decreases v,
{
    match v {
        Variant::Structure(f) => if f@.len() >= 3 && id_of(f@[0]) is Some {
            Some(
                RawParts {
                    id: id_of(f@[0])->0,
                    props: match f@[1] {
                        Variant::Dict(d) => d@,
                        _ => Seq::empty(),
                    },
                    children: match f@[2] {
                        Variant::Array(a) => a@,
                        _ => Seq::empty(),
                    },
                },
            )
        } else {
            None
        },
        Variant::Boxed(inner) => parts_of(*inner),
        _ => None,
    }
}

/// The label of an entry, cut.
pub open spec fn label_of(props: Seq<(String, Variant)>) -> Option<Seq<char>> {
    match prop(props, "label"@) {
        Some(v) => match str_of(v) {
            Some(s) => Some(cut(s, MAX_LABEL_LEN as int)),
            None => None,
        },
        None => None,
    }
}

/// A truth value among properties; true where there is none.
pub open spec fn flag_of(props: Seq<(String, Variant)>, name: Seq<char>) -> bool {
    match prop(props, name) {
        Some(v) => match bool_of(v) {
            Some(b) => b,
            None => true,
        },
        None => true,
    }
}

/// The kind of switch that an entry is.
pub open spec fn toggle_of(props: Seq<(String, Variant)>) -> Option<ToggleType> {
    match prop(props, "toggle-type"@) {
        Some(v) => match str_of(v) {
            Some(s) => if s == "checkmark"@ {
                Some(ToggleType::Checkmark)
            } else if s == "radio"@ {
                Some(ToggleType::Radio)
            } else {
                None
            },
            None => None,
        },
        None => None,
    }
}

/// The state of a switch; zero where there is none.
pub open spec fn toggle_state_of(props: Seq<(String, Variant)>) -> i32 {
    match prop(props, "toggle-state"@) {
        Some(v) => match i32_of(v) {
            Some(n) => n,
            None => 0,
        },
        None => 0,
    }
}

/// The entry is a separator.
pub open spec fn separator_of(props: Seq<(String, Variant)>) -> bool {
    match prop(props, "type"@) {
        Some(v) => str_of(v) == Some("separator"@),
        None => false,
    }
}

/// The entry of a menu that the parts of one make, at a level.
pub open spec fn menu_of(p: RawParts, depth: nat) -> MenuModel
    decreases 9 - depth, 0int,
{
    MenuModel {
        id: p.id,
        label: label_of(p.props),
        enabled: flag_of(p.props, "enabled"@),
        visible: flag_of(p.props, "visible"@),
        is_separator: separator_of(p.props),
        toggle_type: toggle_of(p.props),
        toggle_state: toggle_state_of(p.props),
        submenu: if depth < MAX_MENU_DEPTH {
            front(
                entries_of(front(p.children, MAX_MENU_CHILDREN + 1), depth + 1),
                MAX_MENU_CHILDREN as int,
            )
        } else {
            Seq::empty()
        },
    }
}

/// The entries of a menu that values are. Values that are none are left out.
pub open spec fn entries_of(children: Seq<Variant>, depth: nat) -> Seq<MenuModel>
    decreases 9 - depth, children.len() + 1,
{
    if children.len() == 0 {
        Seq::empty()
    } else {
        match parts_of(children.last()) {
            Some(p) => entries_of(children.drop_last(), depth).push(menu_of(p, depth)),
            None => entries_of(children.drop_last(), depth),
        }
    }
}

/// The entries of the front come first.
proof fn lemma_entries_front(c: Seq<Variant>, depth: nat, k: int)
    requires
        0 <= k <= c.len(),
    ensures
        entries_of(c.take(k), depth).len() <= entries_of(c, depth).len(),
        entries_of(c, depth).take(entries_of(c.take(k), depth).len() as int) == entries_of(
            c.take(k),
            depth,
        ),
    decreases c.len() - k,
{
    if k < c.len() {
        let b = c.take(k + 1);
        assert(b.drop_last() =~= c.take(k));
        lemma_entries_front(c, depth, k + 1);
        assert(entries_of(c, depth).take(entries_of(c.take(k), depth).len() as int) =~= entries_of(
            c.take(k),
            depth,
        ));
    } else {
        assert(c.take(k) =~= c);
        assert(entries_of(c, depth).take(entries_of(c, depth).len() as int) =~= entries_of(c, depth));
    }
}

fn find_prop<'a>(props: &'a Vec<(String, Variant)>, name: &str) -> (r: Option<&'a Variant>)
    ensures
        match r {
            Some(v) => prop(props@, name@) == Some(*v),
            None => prop(props@, name@) is None,
        },
{
    let mut i: usize = props.len();
    assert(props@.take(i as int) =~= props@);
    while 0 < i
        invariant
            i <= props@.len(),
            prop(props@.take(i as int), name@) == prop(props@, name@),
        decreases i,
    {
        assert(props@.take(i as int).drop_last() =~= props@.take(i - 1));
        assert(props@.take(i as int).last() == props@[i - 1]);
        if text::same(props[i - 1].0.as_str(), name) {
            return Some(&props[i - 1].1);
        }
        i = i - 1;
    }
    None
}

fn extract_val_str(v: &Variant) -> (r: Option<&str>)
    ensures
        text::opt_str(r) == str_of(*v),
    decreases v,
{
    match v {
        Variant::Str(s) => Some(s.as_str()),
        Variant::Boxed(inner) => extract_val_str(&**inner),
        _ => None,
    }
}

fn extract_val_bool(v: &Variant) -> (r: Option<bool>)
    ensures
        r == bool_of(*v),
    decreases v,
{
    match v {
        Variant::Bool(b) => Some(*b),
        Variant::I32(n) => Some(*n != 0),
        Variant::U32(n) => Some(*n != 0),
        Variant::Boxed(inner) => extract_val_bool(&**inner),
        _ => None,
    }
}

fn extract_val_i32(v: &Variant) -> (r: Option<i32>)
    ensures
        r == i32_of(*v),
    decreases v,
{
    match v {
        Variant::I32(n) => Some(*n),
        Variant::U32(n) => Some(#[verifier::truncate] (*n as i32)),
        Variant::Bool(b) => Some(
            if *b {
                1
            } else {
                0
            },
        ),
        Variant::Boxed(inner) => extract_val_i32(&**inner),
        _ => None,
    }
}

fn prop_str<'a>(props: &'a Vec<(String, Variant)>, name: &str) -> (r: Option<&'a str>)
    ensures
        text::opt_str(r) == (match prop(props@, name@) {
            Some(v) => str_of(v),
            None => None,
        }),
{
    match find_prop(props, name) {
        Some(v) => extract_val_str(v),
        None => None,
    }
}

fn prop_flag(props: &Vec<(String, Variant)>, name: &str) -> (r: bool)
    ensures
        r == flag_of(props@, name@),
{
    match find_prop(props, name) {
        Some(v) => match extract_val_bool(v) {
            Some(b) => b,
            None => true,
        },
        None => true,
    }
}

fn build_entry(
    id: i32,
    props: &Vec<(String, Variant)>,
    children: &Vec<Variant>,
    depth: u8,
) -> (m: MenuItem)
    requires
        depth <= MAX_MENU_DEPTH,
    ensures
        m.model() == menu_of(RawParts { id, props: props@, children: children@ }, depth as nat),
    decreases 9 - depth, 0int,
{
    let label: Option<String> = match prop_str(props, "label") {
        Some(s) => Some(truncate_label(s)),
        None => None,
    };
    let is_separator: bool = match prop_str(props, "type") {
        Some(s) => text::same(s, "separator"),
        None => false,
    };
    let enabled: bool = prop_flag(props, "enabled");
    let visible: bool = prop_flag(props, "visible");
    let toggle_type: Option<ToggleType> = match prop_str(props, "toggle-type") {
        Some(s) => {
            if text::same(s, "checkmark") {
                Some(ToggleType::Checkmark)
            } else if text::same(s, "radio") {
                Some(ToggleType::Radio)
            } else {
                None
            }
        },
        None => None,
    };
    let toggle_state: i32 = match find_prop(props, "toggle-state") {
        Some(v) => match extract_val_i32(v) {
            Some(n) => n,
            None => 0,
        },
        None => 0,
    };
    let submenu: Vec<MenuItem> = if depth < MAX_MENU_DEPTH {
        build_entries(children, depth + 1)
    } else {
        Vec::new()
    };
    let m: MenuItem = MenuItem {
        id,
        label,
        enabled,
        visible,
        is_separator,
        toggle_type,
        toggle_state,
        submenu,
    };
    proof {
        types::lemma_menu_model(m);
        assert(m.model().submenu =~= menu_of(
            RawParts { id, props: props@, children: children@ },
            depth as nat,
        ).submenu);
    }
    m
}

fn build_value(v: &Variant, depth: u8) -> (r: Option<MenuItem>)
    requires
        depth <= MAX_MENU_DEPTH,
    ensures
        match r {
            Some(m) => parts_of(*v) is Some && m.model() == menu_of(parts_of(*v)->0, depth as nat),
            None => parts_of(*v) is None,
        },
    decreases 9 - depth, 1int, v,
{
    match v {
        Variant::Structure(f) => {
            if f.len() < 3 {
                return None;
            }
            let id: i32 = match &f[0] {
                Variant::I32(n) => *n,
                Variant::U32(n) => #[verifier::truncate] (*n as i32),
                _ => return None,
            };
            let none_p: Vec<(String, Variant)> = Vec::new();
            let none_c: Vec<Variant> = Vec::new();
            let props: &Vec<(String, Variant)> = match &f[1] {
                Variant::Dict(d) => d,
                _ => &none_p,
            };
            let children: &Vec<Variant> = match &f[2] {
                Variant::Array(a) => a,
                _ => &none_c,
            };
            assert(parts_of(*v)->0 == RawParts { id, props: props@, children: children@ });
            Some(build_entry(id, props, children, depth))
        },
        Variant::Boxed(inner) => build_value(&**inner, depth),
        _ => None,
    }
}

fn build_entries(children: &Vec<Variant>, depth: u8) -> (r: Vec<MenuItem>)
    requires
        depth <= MAX_MENU_DEPTH,
    ensures
        types::menu_models(r@) == front(
            entries_of(front(children@, MAX_MENU_CHILDREN + 1), depth as nat),
            MAX_MENU_CHILDREN as int,
        ),
    decreases 9 - depth, 2int,
{
    let n: usize = if children.len() > MAX_MENU_CHILDREN + 1 {
        MAX_MENU_CHILDREN + 1
    } else {
        children.len()
    };
    let ghost f: Seq<Variant> = front(children@, MAX_MENU_CHILDREN + 1);
    let mut r: Vec<MenuItem> = Vec::new();
    let mut i: usize = 0;
    assert(f =~= children@.take(n as int));
    assert(f.take(0) =~= Seq::empty());
    assert(types::menu_models(r@) =~= Seq::empty());
    while i < n && r.len() < MAX_MENU_CHILDREN
        invariant
            depth <= MAX_MENU_DEPTH,
            n <= children@.len(),
            n == f.len(),
            f == children@.take(n as int),
            i <= n,
            r@.len() <= MAX_MENU_CHILDREN,
            types::menu_models(r@) == entries_of(f.take(i as int), depth as nat),
        decreases n - i,
    {
        assert(f.take(i + 1).drop_last() =~= f.take(i as int));
        assert(f.take(i + 1).last() == children@[i as int]);
        let ghost before: Seq<MenuItem> = r@;
        if let Some(m) = build_value(&children[i], depth) {
            r.push(m);
            assert(types::menu_models(r@) =~= types::menu_models(before).push(m.model()));
        }
        i = i + 1;
    }
    proof {
        lemma_entries_front(f, depth as nat, i as int);
        assert(f.take(n as int) =~= f);
        assert(types::menu_models(r@) =~= front(
            entries_of(f, depth as nat),
            MAX_MENU_CHILDREN as int,
        ));
    }
    r
}

/// Reads the menu of an item.
pub fn parse_raw_menu_item(raw: &RawMenuItem) -> (m: MenuItem)
    ensures
        m.model() == menu_of(
            RawParts { id: raw.id, props: raw.props@, children: raw.children@ },
            0,
        ),
{
    build_entry(raw.id, &raw.props, &raw.children, 0)
}

/// A label without mnemonic underscores, and without white space at its ends.
pub open spec fn clean_label(raw: Seq<char>) -> Seq<char> {
    text::trimmed(text::replaced(raw, "_"@, ""@))
}

/// Takes the mnemonic underscores and the white space at the ends out of a label.
pub fn clean_menu_label(raw: &str) -> (r: String)
    ensures
        r@ == clean_label(raw@),
{
    text::trim(text::replace(raw, "_", "").as_str())
}

proof fn lemma_no_underscore(s: Seq<char>, i: int)
    requires
        0 <= i,
    ensures
        !text::replaced_from(s, i, "_"@, ""@).contains('_'),
    decreases s.len() - i,
{
    reveal_strlit("_");
    reveal_strlit("");
    if i < s.len() {
        lemma_no_underscore(s, i + 1);
        let rest = text::replaced_from(s, i + 1, "_"@, ""@);
        let all = text::replaced_from(s, i, "_"@, ""@);
        if text::occurs_at(s, "_"@, i) {
            assert(all =~= rest);
        } else {
            if s[i] == '_' {
                assert(s.subrange(i, i + 1) =~= "_"@);
            }
            assert(all =~= seq![s[i]] + rest);
            assert forall|j: int| 0 <= j < all.len() implies all[j] != '_' by {
                if j > 0 {
                    assert(all[j] == rest[j - 1]);
                    assert(rest.contains(rest[j - 1]));
                }
            }
        }
    }
}

/// A label is shown without underscores.
pub proof fn law_label_has_no_underscore(raw: Seq<char>)
    ensures
        !clean_label(raw).contains('_'),
{
    reveal_strlit("_");
    let plain = text::replaced(raw, "_"@, ""@);
    lemma_no_underscore(raw, 0);
    text::lemma_trimmed_start(plain);
    text::lemma_trimmed_end(text::trimmed_start(plain));
    let start = text::trimmed_start(plain);
    let out = text::trimmed(plain);
    assert forall|i: int| 0 <= i < out.len() implies out[i] != '_' by {
        let k = plain.len() - start.len();
        assert(out[i] == plain[i + k]);
        assert(plain.contains(plain[i + k]));
    }
}

/// A menu is within bounds: no more levels of submenus than `levels`, no more
/// entries in each than the limit, and no longer label.
pub open spec fn bounded(m: MenuModel, levels: nat) -> bool
    decreases levels,
{
    &&& m.submenu.len() <= MAX_MENU_CHILDREN
    &&& m.label matches Some(l) ==> l.len() <= MAX_LABEL_LEN
    &&& if levels == 0 {
        m.submenu.len() == 0
    } else {
        forall|i: int| 0 <= i < m.submenu.len() ==> bounded(#[trigger] m.submenu[i], (levels - 1) as nat)
    }
}

/// A text has at least as many bytes as characters.
proof fn lemma_bytes_at_least_chars(s: Seq<char>)
    ensures
        s.len() <= text::byte_len(s),
    decreases s.len(),
{
    if s.len() > 0 {
        lemma_bytes_at_least_chars(s.drop_first());
        vstd::utf8::encode_utf8_first_scalar(s);
    }
}

proof fn lemma_entries_bounded(c: Seq<Variant>, depth: nat)
    requires
        depth <= MAX_MENU_DEPTH,
    ensures
        forall|i: int|
            0 <= i < entries_of(c, depth).len() ==> bounded(
                #[trigger] entries_of(c, depth)[i],
                (MAX_MENU_DEPTH - depth) as nat,
            ),
    decreases 9 - depth, c.len() + 1,
{
    let levels = (MAX_MENU_DEPTH - depth) as nat;
    let all = entries_of(c, depth);
    if c.len() > 0 {
        let fewer = entries_of(c.drop_last(), depth);
        lemma_entries_bounded(c.drop_last(), depth);
        if let Some(p) = parts_of(c.last()) {
            law_menu_is_bounded(p, depth);
            assert(all == fewer.push(menu_of(p, depth)));
            assert forall|i: int| 0 <= i < all.len() implies bounded(#[trigger] all[i], levels) by {
                if i < fewer.len() {
                    assert(all[i] == fewer[i]);
                }
            }
        } else {
            assert(all == fewer);
        }
    } else {
        assert(all.len() == 0);
    }
}

/// Whatever an item sends as its menu, what is read of it is within bounds.
pub proof fn law_menu_is_bounded(p: RawParts, depth: nat)
    requires
        depth <= MAX_MENU_DEPTH,
    ensures
        bounded(menu_of(p, depth), (MAX_MENU_DEPTH - depth) as nat),
    decreases 9 - depth, 0int,
{
    let m = menu_of(p, depth);
    if let Some(v) = prop(p.props, "label"@) {
        if let Some(s) = str_of(v) {
            lemma_bytes_at_least_chars(s);
        }
    }
    assert(m.label == label_of(p.props));
    if depth < MAX_MENU_DEPTH {
        let c = front(p.children, MAX_MENU_CHILDREN + 1);
        let all = entries_of(c, depth + 1);
        lemma_entries_bounded(c, depth + 1);
        assert(m.submenu == front(all, MAX_MENU_CHILDREN as int));
        assert forall|i: int| 0 <= i < m.submenu.len() implies bounded(
            #[trigger] m.submenu[i],
            (MAX_MENU_DEPTH - depth - 1) as nat,
        ) by {
            assert(m.submenu[i] == all[i]);
        }
    } else {
        assert(m.submenu.len() == 0);
    }
}

// ---------------------------------------------------------------------------
// What is read of a menu
// ---------------------------------------------------------------------------

/// The value that stands last under a name among the properties.
pub open spec fn stands_under(props: Seq<(String, Variant)>, name: Seq<char>, v: Variant) -> bool {
    exists|i: int|
        0 <= i < props.len() && (#[trigger] props[i]).0@ == name && props[i].1 == v && forall|j: int|
            i < j < props.len() ==> (#[trigger] props[j]).0@ != name
}

/// Nothing stands under a name.
pub open spec fn has_none(props: Seq<(String, Variant)>, name: Seq<char>) -> bool {
    forall|i: int| 0 <= i < props.len() ==> (#[trigger] props[i]).0@ != name
}

/// The value within the values that a value is boxed in.
pub open spec fn innermost(v: Variant) -> Variant
    decreases v,
{
    match v {
        Variant::Boxed(inner) => innermost(*inner),
        _ => v,
    }
}

/// A value that says no: false or the number zero.
pub open spec fn says_no(v: Variant) -> bool {
    match innermost(v) {
        Variant::Bool(b) => !b,
        Variant::I32(n) => n == 0,
        Variant::U32(n) => n == 0,
        _ => false,
    }
}

/// A value is a text.
pub open spec fn says_text(v: Variant, s: Seq<char>) -> bool {
    innermost(v) matches Variant::Str(t) && t@ == s
}

proof fn lemma_prop(props: Seq<(String, Variant)>, name: Seq<char>)
    ensures
        match prop(props, name) {
            Some(v) => stands_under(props, name, v) && !has_none(props, name) && forall|w: Variant|
                stands_under(props, name, w) ==> w == v,
            None => has_none(props, name) && forall|w: Variant| !stands_under(props, name, w),
        },
    decreases props.len(),
{
    let n = props.len();
    if n > 0 {
        let d = props.drop_last();
        lemma_prop(d, name);
        if props.last().0@ == name {
            assert(props[n - 1].0@ == name);
            assert(stands_under(props, name, props[n - 1].1));
            assert forall|w: Variant| stands_under(props, name, w) implies w == props[n - 1].1 by {
                let i = choose|i: int|
                    0 <= i < props.len() && (#[trigger] props[i]).0@ == name && props[i].1 == w && forall|j: int|
                        i < j < props.len() ==> (#[trigger] props[j]).0@ != name;
                assert(i == n - 1);
            }
        } else {
            assert(props[n - 1].0@ != name);
            assert forall|w: Variant| stands_under(props, name, w) == stands_under(d, name, w) by {
                if stands_under(props, name, w) {
                    let i = choose|i: int|
                        0 <= i < props.len() && (#[trigger] props[i]).0@ == name && props[i].1 == w && forall|j: int|
                            i < j < props.len() ==> (#[trigger] props[j]).0@ != name;
                    assert(d[i] == props[i]);
                    assert forall|j: int| i < j < d.len() implies (#[trigger] d[j]).0@ != name by {
                        assert(props[j].0@ != name);
                    }
                }
                if stands_under(d, name, w) {
                    let i = choose|i: int|
                        0 <= i < d.len() && (#[trigger] d[i]).0@ == name && d[i].1 == w && forall|j: int|
                            i < j < d.len() ==> (#[trigger] d[j]).0@ != name;
                    assert(props[i] == d[i]);
                    assert forall|j: int| i < j < props.len() implies (#[trigger] props[j]).0@ != name by {
                        if j < n - 1 {
                            assert(d[j].0@ != name);
                        }
                    }
                }
            }
            if prop(props, name) is None {
                assert forall|i: int| 0 <= i < props.len() implies (#[trigger] props[i]).0@ != name by {
                    if i < n - 1 {
                        assert(d[i].0@ != name);
                    }
                }
            } else {
                let i = choose|i: int| 0 <= i < d.len() && (#[trigger] d[i]).0@ == name;
                assert(props[i].0@ == name);
            }
        }
    }
}

proof fn lemma_innermost(v: Variant)
    ensures
        bool_of(v) == Some(false) <==> says_no(v),
        forall|s: Seq<char>| #[trigger] says_text(v, s) <==> str_of(v) == Some(s),
        str_of(v) is None <==> !(innermost(v) is Str),
        i32_of(v) == i32_of(innermost(v)),
    decreases v,
{
    if let Variant::Boxed(inner) = v {
        lemma_innermost(*inner);
        assert forall|s: Seq<char>| #[trigger] says_text(v, s) <==> str_of(v) == Some(s) by {
            assert(says_text(*inner, s) <==> str_of(*inner) == Some(s));
        }
    }
}

/// An entry is visible if and only if its properties hold no false value under the name
/// `visible`, and enabled if and only if they hold none under the name `enabled`. So an
/// entry without such a property is visible and enabled, whatever the others say.
pub proof fn law_entry_shows_unless_it_says_no(p: RawParts, depth: nat, m: MenuItem)
    requires
        m.model() == menu_of(p, depth),
    ensures
        !m.visible <==> exists|v: Variant| #[trigger] stands_under(p.props, "visible"@, v) && says_no(v),
        !m.enabled <==> exists|v: Variant| #[trigger] stands_under(p.props, "enabled"@, v) && says_no(v),
        has_none(p.props, "visible"@) ==> m.visible,
        has_none(p.props, "enabled"@) ==> m.enabled,
{
    lemma_prop(p.props, "visible"@);
    lemma_prop(p.props, "enabled"@);
    if let Some(v) = prop(p.props, "visible"@) {
        lemma_innermost(v);
    }
    if let Some(v) = prop(p.props, "enabled"@) {
        lemma_innermost(v);
    }
}

/// The label of an entry is the text under the name `label`, and an entry has one if and
/// only if a text stands there.
pub proof fn law_entry_has_its_label(p: RawParts, depth: nat, m: MenuItem)
    requires
        m.model() == menu_of(p, depth),
    ensures
        m.id == p.id,
        m.label is Some <==> exists|v: Variant| #[trigger] stands_under(p.props, "label"@, v) && innermost(v) is Str,
        forall|v: Variant, s: Seq<char>| #[trigger]
            stands_under(p.props, "label"@, v) && #[trigger] says_text(v, s) ==> m.label->0@ == cut(s, 256),
{
    lemma_prop(p.props, "label"@);
    if let Some(v) = prop(p.props, "label"@) {
        lemma_innermost(v);
    }
}

/// An entry is a separator if and only if that word stands under the name `type`.
pub proof fn law_separator_is_told_by_its_type(p: RawParts, depth: nat, m: MenuItem)
    requires
        m.model() == menu_of(p, depth),
    ensures
        m.is_separator <==> exists|v: Variant| #[trigger]
            stands_under(p.props, "type"@, v) && says_text(v, "separator"@),
{
    lemma_prop(p.props, "type"@);
    if let Some(v) = prop(p.props, "type"@) {
        lemma_innermost(v);
        assert(says_text(v, "separator"@) <==> str_of(v) == Some("separator"@));
    }
}

/// An entry is the kind of switch that its `toggle-type` names, and in the state that its
/// `toggle-state` gives: zero where none is given. A truth value counts as one or zero.
pub proof fn law_switch_is_told_by_its_properties(p: RawParts, depth: nat, m: MenuItem)
    requires
        m.model() == menu_of(p, depth),
    ensures
        m.toggle_type == Some(ToggleType::Checkmark) <==> exists|v: Variant| #[trigger]
            stands_under(p.props, "toggle-type"@, v) && says_text(v, "checkmark"@),
        m.toggle_type == Some(ToggleType::Radio) <==> exists|v: Variant| #[trigger]
            stands_under(p.props, "toggle-type"@, v) && says_text(v, "radio"@),
        has_none(p.props, "toggle-state"@) ==> m.toggle_state == 0,
        forall|v: Variant| #[trigger]
            stands_under(p.props, "toggle-state"@, v) ==> match innermost(v) {
                Variant::I32(n) => m.toggle_state == n,
                Variant::U32(n) => n <= i32::MAX ==> m.toggle_state == n,
                Variant::Bool(b) => m.toggle_state == if b {
                    1int
                } else {
                    0int
                },
                _ => m.toggle_state == 0,
            },
{
    lemma_prop(p.props, "toggle-type"@);
    lemma_prop(p.props, "toggle-state"@);
    reveal_strlit("checkmark");
    reveal_strlit("radio");
    assert("checkmark"@.len() != "radio"@.len());
    if let Some(v) = prop(p.props, "toggle-type"@) {
        lemma_innermost(v);
        assert(says_text(v, "checkmark"@) <==> str_of(v) == Some("checkmark"@));
        assert(says_text(v, "radio"@) <==> str_of(v) == Some("radio"@));
    }
    if let Some(v) = prop(p.props, "toggle-state"@) {
        lemma_innermost(v);
        lemma_not_boxed(v);
    }
}

proof fn lemma_not_boxed(v: Variant)
    ensures
        !(innermost(v) is Boxed),
    decreases v,
{
    if let Variant::Boxed(inner) = v {
        lemma_not_boxed(*inner);
    }
}

/// A text is cut only where it has more bytes than are allowed. It is then the front of the
/// text, with as many characters as are allowed.
pub proof fn law_cut_text_is_the_front(s: Seq<char>, n: int)
    requires
        0 <= n,
    ensures
        vstd::utf8::encode_utf8(s).len() <= n ==> cut(s, n) == s,
        vstd::utf8::encode_utf8(s).len() > n && s.len() >= n ==> cut(s, n) == s.take(n),
        s.len() < n ==> cut(s, n) == s,
{
    if s.len() == n {
        assert(s.take(n) =~= s);
    }
}

/// The entry that a structure is: its number, its table of properties and its list of
/// children. A value within a value is read as it is itself, and others are no entries.
pub proof fn law_entry_is_a_structure_of_three(v: Variant)
    ensures
        v matches Variant::Boxed(inner) ==> parts_of(v) == parts_of(*inner),
        v matches Variant::Structure(f) ==> {
            &&& parts_of(v) is Some <==> f@.len() >= 3 && (f@[0] is I32 || f@[0] is U32)
            &&& parts_of(v) matches Some(p) ==> {
                &&& f@[0] matches Variant::I32(n) ==> p.id == n
                &&& f@[0] matches Variant::U32(n) ==> (n <= i32::MAX ==> p.id == n)
                &&& f@[1] matches Variant::Dict(d) ==> p.props == d@
                &&& !(f@[1] is Dict) ==> p.props.len() == 0
                &&& f@[2] matches Variant::Array(a) ==> p.children == a@
                &&& !(f@[2] is Array) ==> p.children.len() == 0
            }
        },
        !(v is Boxed) && !(v is Structure) ==> parts_of(v) is None,
{
}

proof fn lemma_entries_all(c: Seq<Variant>, depth: nat, i: int)
    requires
        forall|k: int| 0 <= k < c.len() ==> parts_of(#[trigger] c[k]) is Some,
        0 <= i < c.len(),
    ensures
        entries_of(c, depth).len() == c.len(),
        entries_of(c, depth)[i] == menu_of(parts_of(c[i])->0, depth),
    decreases c.len(),
{
    let d = c.drop_last();
    assert(parts_of(c[c.len() - 1]) is Some);
    if d.len() > 0 {
        assert forall|k: int| 0 <= k < d.len() implies parts_of(#[trigger] d[k]) is Some by {
            assert(parts_of(c[k]) is Some);
        }
        if i < d.len() {
            lemma_entries_all(d, depth, i);
        } else {
            lemma_entries_all(d, depth, 0);
        }
    } else {
        assert(entries_of(d, depth) =~= Seq::empty());
    }
}

/// The submenu of an entry holds its children, in their order, each read as an entry of its
/// own. The front of an overlong list is kept, and nothing below the lowest level.
pub proof fn law_submenu_holds_the_children(p: RawParts, depth: nat, m: MenuItem, i: int)
    requires
        m.model() == menu_of(p, depth),
        forall|k: int| 0 <= k < p.children.len() ==> parts_of(#[trigger] p.children[k]) is Some,
        0 <= i < m.submenu@.len(),
    ensures
        depth < 8,
        i < p.children.len(),
        p.children.len() <= 500 ==> m.submenu@.len() == p.children.len(),
        p.children.len() > 500 ==> m.submenu@.len() == 500,
        m.submenu@[i].model() == menu_of(parts_of(p.children[i])->0, depth + 1),
{
    types::lemma_menu_model(m);
    assert(m.model().submenu.len() == m.submenu@.len());
    assert(m.model().submenu[i] == m.submenu@[i].model());
    let c = front(p.children, MAX_MENU_CHILDREN + 1);
    if depth < MAX_MENU_DEPTH {
        if c.len() > 0 {
            assert forall|k: int| 0 <= k < c.len() implies parts_of(#[trigger] c[k]) is Some by {
                assert(c[k] == p.children[k]);
            }
            lemma_entries_all(c, depth + 1, 0);
            assert(i < c.len());
            lemma_entries_all(c, depth + 1, i);
        }
    }
}

/// An entry with children that are entries has a submenu, down to the lowest level.
pub proof fn law_children_make_a_submenu(p: RawParts, depth: nat, m: MenuItem)
    requires
        m.model() == menu_of(p, depth),
        p.children.len() > 0,
        forall|k: int| 0 <= k < p.children.len() ==> parts_of(#[trigger] p.children[k]) is Some,
    ensures
        m.submenu@.len() > 0 <==> depth < 8,
{
    types::lemma_menu_model(m);
    assert(m.model().submenu.len() == m.submenu@.len());
    if depth < MAX_MENU_DEPTH {
        let c = front(p.children, MAX_MENU_CHILDREN + 1);
        assert forall|k: int| 0 <= k < c.len() implies parts_of(#[trigger] c[k]) is Some by {
            assert(c[k] == p.children[k]);
        }
        lemma_entries_all(c, depth + 1, 0);
    }
}

/// Children that are no entries are left out, and the others close up.
pub proof fn law_children_that_are_no_entries_are_left_out(c: Seq<Variant>, v: Variant, depth: nat)
    ensures
        parts_of(v) is None ==> entries_of(c.push(v), depth) == entries_of(c, depth),
        parts_of(v) is Some ==> entries_of(c.push(v), depth) == entries_of(c, depth).push(
            menu_of(parts_of(v)->0, depth),
        ),
        entries_of(Seq::empty(), depth).len() == 0,
{
    assert(c.push(v).drop_last() =~= c);
}

// ---------------------------------------------------------------------------
// What is read of an address, a tooltip and icons
// ---------------------------------------------------------------------------

/// An address that is a path belongs to its sender.
pub proof fn law_path_belongs_to_the_sender(service: Seq<char>, sender: Option<Seq<char>>)
    requires
        text::trimmed(service) == service,
        service.len() > 0,
        service[0] == '/',
    ensures
        address(service, sender).1 == service,
        sender matches Some(n) ==> address(service, sender).0 == n,
        sender is None ==> address(service, sender).0.len() == 0,
{
}

/// A name with a path behind it is read apart at its first slash, whoever sent it.
pub proof fn law_name_ends_at_the_first_slash(bus: Seq<char>, rest: Seq<char>, sender: Option<Seq<char>>)
    requires
        text::trimmed(bus + seq!['/'] + rest) == bus + seq!['/'] + rest,
        bus.len() > 0,
        !bus.contains('/'),
    ensures
        address(bus + seq!['/'] + rest, sender).0 == bus,
        rest.len() > 0 && rest[0] == '/' ==> address(bus + seq!['/'] + rest, sender).1 == rest,
        rest.len() == 0 || rest[0] != '/' ==> address(bus + seq!['/'] + rest, sender).1 == seq!['/'] + rest,
{
    let s = bus + seq!['/'] + rest;
    reveal_strlit("/");
    assert("/"@ =~= seq!['/']);
    text::lemma_char_from(s, '/', 0);
    let at = text::char_from(s, '/', 0);
    assert(s[bus.len() as int] == '/');
    assert(s[0] == bus[0]);
    assert(bus.contains(bus[0]));
    assert(at == bus.len()) by {
        if at < bus.len() {
            assert(s[at] == bus[at]);
            assert(bus.contains(bus[at]));
        }
    }
    assert(s.take(at) =~= bus);
    assert(s.skip(at + 1) =~= rest);
}

/// A name alone has its item at the usual path.
pub proof fn law_name_alone_has_the_usual_path(service: Seq<char>, sender: Option<Seq<char>>)
    requires
        text::trimmed(service) == service,
        !service.contains('/'),
    ensures
        address(service, sender).0 == service,
        address(service, sender).1 == "/StatusNotifierItem"@,
{
    if service.len() > 0 {
        assert(service.contains(service[0]));
    }
}

/// White space at the ends of an address does not count.
pub proof fn law_address_is_trimmed(a: Seq<char>, b: Seq<char>, sender: Option<Seq<char>>)
    requires
        text::trimmed(a) == text::trimmed(b),
    ensures
        address(a, sender) == address(b, sender),
{
}

/// The tooltip stands under `ToolTip`, or else under `Tooltip`. Its title is the third part
/// of a structure and its description the fourth; a text is both. Each is cut.
pub proof fn law_tooltip_is_read_from_its_parts(props: Map<Seq<char>, Variant>, t: TrayTooltip, v: Variant)
    requires
        tooltip_texts(Some(t)) == tooltip_in(props),
        if props.dom().contains("ToolTip"@) {
            props["ToolTip"@] == v
        } else {
            props.dom().contains("Tooltip"@) && props["Tooltip"@] == v
        },
    ensures
        v is Structure || v is Str,
        v matches Variant::Str(s) ==> t.title@ == cut(s@, 512) && t.description@ == cut(s@, 512),
        v matches Variant::Structure(f) ==> {
            &&& f@.len() > 2 ==> (f@[2] matches Variant::Str(s) ==> t.title@ == cut(s@, 512))
            &&& f@.len() > 3 ==> (f@[3] matches Variant::Str(s) ==> t.description@ == cut(s@, 512))
            &&& f@.len() <= 2 || !(f@[2] is Str) ==> t.title@.len() == 0
            &&& f@.len() <= 3 || !(f@[3] is Str) ==> t.description@.len() == 0
        },
{
}

/// An item has a tooltip if and only if a structure or a text stands under its name.
pub proof fn law_tooltip_is_there_when_said(props: Map<Seq<char>, Variant>)
    ensures
        props.dom().contains("ToolTip"@) ==> (tooltip_in(props) is Some <==> props["ToolTip"@] is Structure
            || props["ToolTip"@] is Str),
        !props.dom().contains("ToolTip"@) && props.dom().contains("Tooltip"@) ==> (tooltip_in(props) is Some
            <==> props["Tooltip"@] is Structure || props["Tooltip"@] is Str),
        !props.dom().contains("ToolTip"@) && !props.dom().contains("Tooltip"@) ==> tooltip_in(props) is None,
{
}

/// A value is an icon of `w` by `h` with these bytes: a structure of the two numbers and the
/// bytes, four for each pixel.
pub open spec fn is_icon(v: Variant, w: int, h: int, pixels: Seq<u8>) -> bool {
    &&& 0 < w <= 512
    &&& 0 < h <= 512
    &&& pixels.len() == w * h * 4
    &&& v matches Variant::Structure(f) && f@.len() >= 3 && is_size(f@[0], w) && is_size(f@[1], h) && (f@[2] matches
        Variant::Array(data) && data@.len() == pixels.len() && forall|i: int|
        0 <= i < pixels.len() ==> #[trigger] data@[i] == Variant::Byte(pixels[i]))
}

/// A value is a whole number of any width.
pub open spec fn is_size(v: Variant, n: int) -> bool {
    match v {
        Variant::I16(k) => k == n,
        Variant::U16(k) => k == n,
        Variant::I32(k) => k == n,
        Variant::U32(k) => k == n,
        _ => false,
    }
}

/// What is read of a value as an icon is its width, its height and its bytes; a value that
/// is an icon is read as one.
pub proof fn law_icon_is_width_height_and_bytes(v: Variant, p: RawIconPixmap)
    ensures
        pixmap_of(v) == Some(pixmap_model(p)) ==> is_icon(v, p.width as int, p.height as int, p.pixels@),
        is_icon(v, p.width as int, p.height as int, p.pixels@) ==> pixmap_of(v) == Some(pixmap_model(p)),
{
    if pixmap_of(v) == Some(pixmap_model(p)) {
        let f = v->Structure_0@;
        let data = f[2]->Array_0@;
        assert forall|i: int| 0 <= i < p.pixels@.len() implies #[trigger] data[i] == Variant::Byte(p.pixels@[i]) by {
            assert(data[i] is Byte);
        }
    }
    if is_icon(v, p.width as int, p.height as int, p.pixels@) {
        let f = v->Structure_0@;
        let data = f[2]->Array_0@;
        assert forall|i: int| 0 <= i < data.len() implies (#[trigger] data[i]) is Byte by {
            assert(data[i] == Variant::Byte(p.pixels@[i]));
        }
        assert(Seq::new(data.len(), |i: int| data[i]->Byte_0) =~= p.pixels@);
    }
}

proof fn lemma_icon_stands(a: Seq<Variant>, i: int) -> (k: int)
    requires
        0 <= i < pixmaps_in(a).len(),
    ensures
        0 <= k < a.len(),
        pixmap_of(a[k]) == Some(pixmaps_in(a)[i]),
    decreases a.len(),
{
    let d = a.drop_last();
    if i < pixmaps_in(d).len() {
        let k = lemma_icon_stands(d, i);
        assert(d[k] == a[k]);
        k
    } else {
        a.len() - 1
    }
}

proof fn lemma_icon_is_in(a: Seq<Variant>, k: int) -> (i: int)
    requires
        0 <= k < a.len(),
        pixmap_of(a[k]) is Some,
    ensures
        0 <= i < pixmaps_in(a).len(),
        i <= k,
        pixmaps_in(a)[i] == pixmap_of(a[k])->0,
    decreases a.len(),
{
    let d = a.drop_last();
    if k < a.len() - 1 {
        assert(d[k] == a[k]);
        lemma_icon_is_in(d, k)
    } else {
        lemma_few_icons(d);
        pixmaps_in(d).len() as int
    }
}

proof fn lemma_few_icons(a: Seq<Variant>)
    ensures
        pixmaps_in(a).len() <= a.len(),
    decreases a.len(),
{
    if a.len() > 0 {
        lemma_few_icons(a.drop_last());
    }
}

/// Icons stand smallest first, and each of them is one that was sent.
pub proof fn law_icons_stand_smallest_first(a: Vec<Variant>, v: Vec<RawIconPixmap>, i: int, j: int) -> (k: int)
    requires
        are_icons(Variant::Array(a), Some(v)),
        0 <= i <= j < v@.len(),
    ensures
        v@[i].width * v@[i].height <= v@[j].width * v@[j].height,
        0 <= k < a@.len(),
        is_icon(a@[k], v@[i].width as int, v@[i].height as int, v@[i].pixels@),
{
    let m = pixmap_models(v@);
    let kept = kept_pixmaps(a@);
    assert(m[i] == pixmap_model(v@[i]));
    assert(m[j] == pixmap_model(v@[j]));
    if i < j {
        assert(area()(m[i]) <= area()(m[j]));
    }
    sorting::law_sort_keeps_all(kept, m, area());
    broadcast use vstd::seq_lib::group_to_multiset_ensures;

    assert(m.contains(m[i]));
    assert(kept.to_multiset().count(m[i]) > 0);
    let q = choose|q: int| 0 <= q < kept.len() && kept[q] == m[i];
    let f = front(a@, MAX_PIXMAPS + 1);
    let k = lemma_icon_stands(f, q);
    assert(f[k] == a@[k]);
    law_icon_is_width_height_and_bytes(a@[k], v@[i]);
    k
}

/// Each of the first icons that were sent is kept.
pub proof fn law_first_icons_are_kept(a: Vec<Variant>, v: Option<Vec<RawIconPixmap>>, k: int, p: RawIconPixmap) -> (i: int)
    requires
        are_icons(Variant::Array(a), v),
        0 <= k < a@.len(),
        k < 8,
        is_icon(a@[k], p.width as int, p.height as int, p.pixels@),
    ensures
        v is Some,
        0 <= i < v->0@.len(),
        v->0@[i].width == p.width,
        v->0@[i].height == p.height,
        v->0@[i].pixels@ == p.pixels@,
{
    broadcast use vstd::seq_lib::group_to_multiset_ensures;

    law_icon_is_width_height_and_bytes(a@[k], p);
    let f = front(a@, MAX_PIXMAPS + 1);
    assert(f[k] == a@[k]);
    let q = lemma_icon_is_in(f, k);
    let kept = kept_pixmaps(a@);
    assert(kept[q] == pixmap_model(p));
    let m = pixmap_models(v->0@);
    sorting::law_sort_keeps_all(kept, m, area());
    assert(kept.contains(kept[q]));
    assert(m.to_multiset().count(pixmap_model(p)) > 0);
    let i = choose|i: int| 0 <= i < m.len() && m[i] == pixmap_model(p);
    assert(m[i] == pixmap_model(v->0@[i]));
    i
}

proof fn lemma_filtered_underscores(s: Seq<char>, i: int)
    requires
        0 <= i <= s.len(),
    ensures
        text::replaced_from(s, i, "_"@, ""@) == s.skip(i).filter(|c: char| c != '_'),
    decreases s.len() - i,
{
    reveal_strlit("_");
    reveal_strlit("");
    let plain = |c: char| c != '_';
    let t = s.skip(i);
    if i < s.len() {
        lemma_filtered_underscores(s, i + 1);
        let rest = s.skip(i + 1);
        assert(t =~= seq![s[i]] + rest);
        Seq::filter_distributes_over_add(seq![s[i]], rest, plain);
        reveal(Seq::filter);
        assert(seq![s[i]].drop_last() =~= Seq::<char>::empty());
        assert(Seq::<char>::empty().filter(plain) =~= Seq::empty());
        if s[i] == '_' {
            assert(s.subrange(i, i + 1) =~= "_"@);
            assert(text::occurs_at(s, "_"@, i));
            assert(seq![s[i]].filter(plain) =~= Seq::empty());
            assert(""@ + text::replaced_from(s, i + 1, "_"@, ""@) =~= text::replaced_from(s, i + 1, "_"@, ""@));
            assert(t.filter(plain) =~= rest.filter(plain));
        } else {
            assert(s.subrange(i, i + 1)[0] == s[i]);
            assert(!text::occurs_at(s, "_"@, i));
            assert(seq![s[i]].filter(plain) =~= seq![s[i]]);
            assert(t.filter(plain) =~= seq![s[i]] + rest.filter(plain));
        }
    } else {
        reveal(Seq::filter);
        assert(t =~= Seq::empty());
        assert(t.filter(plain) =~= Seq::empty());
    }
}

/// A label is what was sent without its underscores, and without white space at its ends.
pub proof fn law_label_is_what_was_sent(raw: Seq<char>)
    ensures
        clean_label(raw) == text::trimmed(raw.filter(|c: char| c != '_')),
        !raw.contains('_') && text::trimmed(raw) == raw ==> clean_label(raw) == raw,
{
    reveal_strlit("_");
    lemma_filtered_underscores(raw, 0);
    assert(raw.skip(0) =~= raw);
    if !raw.contains('_') {
        let plain = |c: char| c != '_';
        assert forall|i: int| 0 <= i < raw.len() implies plain(#[trigger] raw[i]) by {
            assert(raw.contains(raw[i]));
        }
        lemma_filter_all(raw, plain);
    }
}

proof fn lemma_filter_all(s: Seq<char>, keep: spec_fn(char) -> bool)
    requires
        forall|i: int| 0 <= i < s.len() ==> keep(#[trigger] s[i]),
    ensures
        s.filter(keep) == s,
    decreases s.len(),
{
    reveal(Seq::filter);
    if s.len() > 0 {
        let d = s.drop_last();
        assert forall|i: int| 0 <= i < d.len() implies keep(#[trigger] d[i]) by {
            assert(d[i] == s[i]);
        }
        lemma_filter_all(d, keep);
        assert(keep(s[s.len() - 1]));
        assert(d.push(s.last()) =~= s);
    }
}

/// Icons come in an array. There are none where no icon of it is kept, and some where one is.
pub proof fn law_icons_come_in_an_array(val: Variant, a: Vec<Variant>, r: Option<Vec<RawIconPixmap>>)
    requires
        are_icons(val, r),
    ensures
        !(val is Array) ==> r is None,
        val == Variant::Array(a) ==> (r is None <==> kept_pixmaps(a@).len() == 0),
{
    if val == Variant::Array(a) {
        if let Some(v) = r {
            sorting::law_sort_keeps_all(kept_pixmaps(a@), pixmap_models(v@), area());
            kept_pixmaps(a@).to_multiset_ensures();
            pixmap_models(v@).to_multiset_ensures();
            assert(pixmap_models(v@).len() == v@.len());
        }
    }
}

} // verus!
