//! Icons: which one stands for what, where it is looked for, and how its pixels are
//! laid out.
use vstd::prelude::*;

use crate::desktop;
use crate::names::NameMap;
use crate::paths;
use crate::text;

verus! {

// ---------------------------------------------------------------------------
// Pixels
// ---------------------------------------------------------------------------

/// The largest width and height of an icon that comes in pixels.
pub const MAX_DIM: i32 = 512;

/// An icon in pixels: four bytes each, in the order alpha, red, green, blue.
#[derive(Debug, Clone, PartialEq, Eq)]
pub struct RawIconPixmap {
    pub width: i32,
    pub height: i32,
    pub pixels: Vec<u8>,
}

/// A picture: rows of `rowstride` bytes, with `n_channels` bytes for each pixel, of
/// which the fourth is the alpha channel where there is one.
#[derive(Debug, Clone, PartialEq, Eq)]
pub struct PixelImage {
    pub width: i32,
    pub height: i32,
    pub has_alpha: bool,
    pub n_channels: u32,
    pub rowstride: u32,
    pub pixels: Vec<u8>,
}

/// An icon has a size within bounds.
pub open spec fn sized(p: RawIconPixmap) -> bool {
    0 < p.width <= MAX_DIM && 0 < p.height <= MAX_DIM
}

/// The number of pixels of an icon.
pub open spec fn pixel_count(p: RawIconPixmap) -> int {
    p.width * p.height
}

/// The position of the largest icon with a size within bounds; of several, the last.
pub open spec fn largest(ps: Seq<RawIconPixmap>) -> Option<int>
    decreases ps.len(),
{
    if ps.len() == 0 {
        None
    } else if !sized(ps.last()) {
        largest(ps.drop_last())
    } else {
        match largest(ps.drop_last()) {
            Some(i) => if pixel_count(ps[i]) > pixel_count(ps.last()) {
                Some(i)
            } else {
                Some(ps.len() - 1)
            },
            None => Some(ps.len() - 1),
        }
    }
}

/// The largest icon has a size within bounds, and none with such a size is larger.
pub proof fn law_largest_is_largest(ps: Seq<RawIconPixmap>)
    ensures
        match largest(ps) {
            Some(i) => 0 <= i < ps.len() && sized(ps[i]) && forall|j: int|
                0 <= j < ps.len() && sized(#[trigger] ps[j]) ==> pixel_count(ps[j]) <= pixel_count(
                    ps[i],
                ),
            None => forall|j: int| 0 <= j < ps.len() ==> !sized(#[trigger] ps[j]),
        },
    decreases ps.len(),
{
    if ps.len() > 0 {
        let front = ps.drop_last();
        law_largest_is_largest(front);
        assert forall|j: int| 0 <= j < ps.len() - 1 implies ps[j] == #[trigger] front[j] by {}
        match largest(ps) {
            Some(i) => {
                assert forall|j: int| 0 <= j < ps.len() && sized(#[trigger] ps[j]) implies pixel_count(
                    ps[j],
                ) <= pixel_count(ps[i]) by {
                    if j < front.len() {
                        assert(ps[j] == front[j]);
                    }
                }
            },
            None => {
                assert forall|j: int| 0 <= j < ps.len() implies !sized(#[trigger] ps[j]) by {
                    if j < front.len() {
                        assert(ps[j] == front[j]);
                    }
                }
            },
        }
    }
}

/// Pixels in the order red, green, blue, alpha, of pixels in the order alpha, red,
/// green, blue.
pub open spec fn rgba(p: Seq<u8>) -> Seq<u8> {
    Seq::new(
        p.len(),
        |i: int|
            if i % 4 == 3 {
                p[i - 3]
            } else {
                p[i + 1]
            },
    )
}

fn count_pixels(p: &RawIconPixmap) -> (r: u64)
    requires
        sized(*p),
    ensures
        r == pixel_count(*p),
        0 < r <= 512 * 512,
{
    assert(0 < p.width * p.height <= 512 * 512) by (nonlinear_arith)
        requires
            0 < p.width <= 512,
            0 < p.height <= 512,
    ;
    (p.width as u64) * (p.height as u64)
}

fn find_largest(ps: &[RawIconPixmap]) -> (r: Option<usize>)
    ensures
        match r {
            Some(i) => largest(ps@) == Some(i as int) && i < ps@.len() && sized(ps@[i as int]),
            None => largest(ps@) is None,
        },
{
    let mut best: Option<usize> = None;
    let mut i: usize = 0;
    while i < ps.len()
        invariant
            i <= ps@.len(),
            match best {
                Some(k) => largest(ps@.take(i as int)) == Some(k as int) && k < i && sized(
                    ps@[k as int],
                ),
                None => largest(ps@.take(i as int)) is None,
            },
        decreases ps@.len() - i,
    {
        assert(ps@.take(i + 1).drop_last() =~= ps@.take(i as int));
        assert(ps@.take(i + 1).last() == ps@[i as int]);
        let p: &RawIconPixmap = &ps[i];
        if 0 < p.width && p.width <= MAX_DIM && 0 < p.height && p.height <= MAX_DIM {
            best = match best {
                Some(k) => {
                    if count_pixels(&ps[k]) > count_pixels(p) {
                        Some(k)
                    } else {
                        Some(i)
                    }
                },
                None => Some(i),
            };
        }
        i = i + 1;
    }
    assert(ps@.take(i as int) =~= ps@);
    best
}

fn to_rgba(p: &Vec<u8>) -> (r: Vec<u8>)
    requires
        p@.len() % 4 == 0,
    ensures
        r@ == rgba(p@),
{
    let mut r: Vec<u8> = Vec::new();
    let n: usize = p.len();
    let mut i: usize = 0;
    while i < n
        invariant
            n == p@.len(),
            n % 4 == 0,
            i % 4 == 0,
            i <= n,
            r@ == rgba(p@).take(i as int),
        decreases n - i,
    {
        r.push(p[i + 1]);
        r.push(p[i + 2]);
        r.push(p[i + 3]);
        r.push(p[i]);
        assert(r@ =~= rgba(p@).take(i + 4));
        i = i + 4;
    }
    assert(r@ =~= rgba(p@));
    r
}

/// The picture that icons in pixels give: that of the largest. `None` where none has
/// a size within bounds, or where the largest does not hold four bytes for each of
/// its pixels.
pub fn pixmap_to_pixbuf(pixmaps: &[RawIconPixmap]) -> (r: Option<PixelImage>)
    ensures
        match largest(pixmaps@) {
            Some(i) => {
                let p = pixmaps@[i];
                if p.pixels@.len() == pixel_count(p) * 4 {
                    r matches Some(img) && img.width == p.width && img.height == p.height
                        && img.has_alpha && img.n_channels == 4 && img.rowstride == p.width * 4
                        && img.pixels@ == rgba(p.pixels@)
                } else {
                    r is None
                }
            },
            None => r is None,
        },
{
    match find_largest(pixmaps) {
        Some(i) => {
            let p: &RawIconPixmap = &pixmaps[i];
            let n: u64 = count_pixels(p);
            if p.pixels.len() as u64 != n * 4 {
                return None;
            }
            Some(
                PixelImage {
                    width: p.width,
                    height: p.height,
                    has_alpha: true,
                    n_channels: 4,
                    rowstride: p.width as u32 * 4,
                    pixels: to_rgba(&p.pixels),
                },
            )
        },
        None => None,
    }
}

/// A pixel that shows: its alpha channel is above the threshold.
pub open spec fn opaque_at(p: PixelImage, x: int, y: int) -> bool {
    let at = y * p.rowstride + x * p.n_channels + 3;
    0 <= x < p.width && 0 <= y < p.height && at < p.pixels@.len() && p.pixels@[at] > 10
}

/// Some pixel shows.
pub open spec fn any_opaque(p: PixelImage) -> bool {
    exists|x: int, y: int| opaque_at(p, x, y)
}

/// The smallest box around all pixels that show: none lies outside, and one lies at
/// each side.
pub open spec fn is_bbox(p: PixelImage, b: (i32, i32, i32, i32)) -> bool {
    &&& forall|x: int, y: int| #[trigger]
        opaque_at(p, x, y) ==> b.0 <= x <= b.2 && b.1 <= y <= b.3
    &&& exists|y: int| opaque_at(p, b.0 as int, y)
    &&& exists|x: int| opaque_at(p, x, b.1 as int)
    &&& exists|y: int| opaque_at(p, b.2 as int, y)
    &&& exists|x: int| opaque_at(p, x, b.3 as int)
}

/// The box around a whole picture.
pub open spec fn whole(p: PixelImage) -> (int, int, int, int) {
    (
        0,
        0,
        if p.width > 0 {
            p.width - 1
        } else {
            0
        },
        if p.height > 0 {
            p.height - 1
        } else {
            0
        },
    )
}

fn shows(p: &PixelImage, x: i32, y: i32) -> (r: bool)
    requires
        0 <= x < p.width,
        0 <= y < p.height,
    ensures
        r == opaque_at(*p, x as int, y as int),
{
    assert(0 <= y * p.rowstride <= 0x7fff_ffff * 0xffff_ffff) by (nonlinear_arith)
        requires
            0 <= y <= 0x7fff_ffff,
            0 <= p.rowstride <= 0xffff_ffff,
    ;
    assert(0 <= x * p.n_channels <= 0x7fff_ffff * 0xffff_ffff) by (nonlinear_arith)
        requires
            0 <= x <= 0x7fff_ffff,
            0 <= p.n_channels <= 0xffff_ffff,
    ;
    let at: u64 = (y as u64) * (p.rowstride as u64) + (x as u64) * (p.n_channels as u64) + 3;
    if at < p.pixels.len() as u64 {
        p.pixels[at as usize] > 10
    } else {
        false
    }
}

/// The box around the pixels of a picture that show: the columns and rows of its
/// sides. The whole picture, where it has no alpha channel or nothing shows.
pub fn find_non_transparent_bbox(p: &PixelImage) -> (b: (i32, i32, i32, i32))
    ensures
        if p.has_alpha && any_opaque(*p) {
            is_bbox(*p, b)
        } else {
            (b.0 as int, b.1 as int, b.2 as int, b.3 as int) == whole(*p)
        },
{
    let w: i32 = p.width;
    let h: i32 = p.height;
    let all: (i32, i32, i32, i32) = (
        0,
        0,
        if w > 0 {
            w - 1
        } else {
            0
        },
        if h > 0 {
            h - 1
        } else {
            0
        },
    );
    if w <= 0 || h <= 0 || !p.has_alpha {
        return all;
    }
    let mut b: Option<(i32, i32, i32, i32)> = None;
    let ghost mut left: int = 0;
    let ghost mut top: int = 0;
    let ghost mut right: int = 0;
    let ghost mut bottom: int = 0;
    let mut y: i32 = 0;
    while y < h
        invariant
            w == p.width,
            h == p.height,
            0 < w,
            0 <= y <= h,
            match b {
                Some(c) => {
                    &&& forall|i: int, j: int| #[trigger]
                        opaque_at(*p, i, j) && j < y ==> c.0 <= i <= c.2 && c.1 <= j <= c.3
                    &&& opaque_at(*p, c.0 as int, left)
                    &&& opaque_at(*p, top, c.1 as int)
                    &&& opaque_at(*p, c.2 as int, right)
                    &&& opaque_at(*p, bottom, c.3 as int)
                },
                None => forall|i: int, j: int| #[trigger] opaque_at(*p, i, j) ==> j >= y,
            },
        decreases h - y,
    {
        let mut x: i32 = 0;
        while x < w
            invariant
                w == p.width,
                h == p.height,
                0 <= y < h,
                0 <= x <= w,
                match b {
                    Some(c) => {
                        &&& forall|i: int, j: int| #[trigger]
                            opaque_at(*p, i, j) && (j < y || (j == y && i < x)) ==> c.0 <= i <= c.2
                                && c.1 <= j <= c.3
                        &&& opaque_at(*p, c.0 as int, left)
                        &&& opaque_at(*p, top, c.1 as int)
                        &&& opaque_at(*p, c.2 as int, right)
                        &&& opaque_at(*p, bottom, c.3 as int)
                    },
                    None => forall|i: int, j: int| #[trigger]
                        opaque_at(*p, i, j) ==> j > y || (j == y && i >= x),
                },
            decreases w - x,
        {
            if shows(p, x, y) {
                let c: (i32, i32, i32, i32) = match b {
                    Some(c) => c,
                    None => {
                        proof {
                            left = y as int;
                            right = y as int;
                            top = x as int;
                            bottom = x as int;
                        }
                        (x, y, x, y)
                    },
                };
                proof {
                    if x < c.0 {
                        left = y as int;
                    }
                    if y < c.1 {
                        top = x as int;
                    }
                    if x > c.2 {
                        right = y as int;
                    }
                    if y > c.3 {
                        bottom = x as int;
                    }
                }
                b = Some(
                    (
                        if x < c.0 {
                            x
                        } else {
                            c.0
                        },
                        if y < c.1 {
                            y
                        } else {
                            c.1
                        },
                        if x > c.2 {
                            x
                        } else {
                            c.2
                        },
                        if y > c.3 {
                            y
                        } else {
                            c.3
                        },
                    ),
                );
            }
            x = x + 1;
        }
        y = y + 1;
    }
    match b {
        Some(c) => {
            assert(opaque_at(*p, c.0 as int, left));
            c
        },
        None => all,
    }
}

// ---------------------------------------------------------------------------
// Sizes
// ---------------------------------------------------------------------------

/// The part of a picture that is kept: its left column, its top row, its width and
/// its height.
pub fn crop_of(p: &PixelImage) -> (r: (i32, i32, i32, i32))
    requires
        0 < p.width,
        0 < p.height,
    ensures
        if p.has_alpha && any_opaque(*p) {
            is_bbox(*p, (r.0, r.1, (r.0 + r.2 - 1) as i32, (r.1 + r.3 - 1) as i32))
        } else {
            r == (0i32, 0i32, p.width, p.height)
        },
        0 <= r.0 && 0 < r.2 && r.0 + r.2 <= p.width,
        0 <= r.1 && 0 < r.3 && r.1 + r.3 <= p.height,
{
    let b: (i32, i32, i32, i32) = find_non_transparent_bbox(p);
    proof {
        if p.has_alpha && any_opaque(*p) {
            let y0 = choose|y: int| opaque_at(*p, b.0 as int, y);
            assert(opaque_at(*p, b.0 as int, y0));
            let x0 = choose|x: int| opaque_at(*p, x, b.1 as int);
            assert(opaque_at(*p, x0, b.1 as int));
            let y1 = choose|y: int| opaque_at(*p, b.2 as int, y);
            assert(opaque_at(*p, b.2 as int, y1));
            let x1 = choose|x: int| opaque_at(*p, x, b.3 as int);
            assert(opaque_at(*p, x1, b.3 as int));
        }
    }
    (b.0, b.1, b.2 - b.0 + 1, b.3 - b.1 + 1)
}

/// The longer side that a picture gets in a square: a pixel is left free all around,
/// unless the square is small.
pub fn glyph_max(target_size: i32) -> (r: i32)
    requires
        0 < target_size,
    ensures
        r == (if target_size >= 16 {
            target_size - 2
        } else {
            target_size as int
        }),
        0 < r <= target_size,
{
    if target_size >= 16 {
        target_size - 2
    } else {
        target_size
    }
}

/// Where a picture stands in a square, and how large it is there.
#[derive(Debug, Clone, Copy, PartialEq, Eq, Structural)]
pub struct Fit {
    pub x: i32,
    pub y: i32,
    pub width: i32,
    pub height: i32,
}

/// Fits a picture into a square, in its middle. The longer side of the picture gets
/// all the room there is; `shorter` is what the other side gets by its proportion,
/// in whole pixels.
pub fn fit(width: i32, height: i32, target_size: i32, shorter: i32) -> (r: Fit)
    requires
        0 < target_size,
        shorter <= target_size - 2 || (target_size < 16 && shorter <= target_size),
    ensures
        ({
            let long = if target_size >= 16 {
                target_size - 2
            } else {
                target_size as int
            };
            let short = if shorter < 1 {
                1
            } else {
                shorter as int
            };
            if width >= height {
                r.width == long && r.height == short
            } else {
                r.width == short && r.height == long
            }
        }),
        r.x == (target_size - r.width) / 2,
        r.y == (target_size - r.height) / 2,
        0 <= r.x && r.x + r.width <= target_size,
        0 <= r.y && r.y + r.height <= target_size,
{
    let long: i32 = glyph_max(target_size);
    let short: i32 = if shorter < 1 {
        1
    } else {
        shorter
    };
    let (w, h): (i32, i32) = if width >= height {
        (long, short)
    } else {
        (short, long)
    };
    Fit { x: (target_size - w) / 2, y: (target_size - h) / 2, width: w, height: h }
}

/// The size of an application's icon: the usual one, where none is given.
pub fn app_icon_size(logical_size: i32) -> (r: i32)
    ensures
        r == (if logical_size <= 0 {
            32
        } else {
            logical_size as int
        }),
{
    if logical_size <= 0 {
        32
    } else {
        logical_size
    }
}

/// The size at which an icon is read: the usual one, where none is given, and no
/// more than the largest.
pub fn read_size(target_size: i32) -> (r: i32)
    ensures
        r == (if target_size <= 0 {
            32
        } else if target_size > 512 {
            512
        } else {
            target_size as int
        }),
{
    if target_size <= 0 {
        32
    } else if target_size > 512 {
        512
    } else {
        target_size
    }
}

// ---------------------------------------------------------------------------
// Names
// ---------------------------------------------------------------------------

/// A name that is safe to look up: not empty, not overlong, and no path.
pub open spec fn safe_name(name: Seq<char>) -> bool {
    0 < name.len() && text::byte_len(name) <= 128 && !name.contains('\0') && !name.contains('/')
        && !name.contains('\\') && !text::has(name, ".."@)
}

/// The name of an icon that an application sends, where it is safe to look up.
pub fn sanitize_icon_name(name: &str) -> (r: Option<String>)
    ensures
        text::opt(r) == (if safe_name(name@) {
            Some(name@)
        } else {
            None
        }),
{
    let cs: Vec<char> = text::chars_of(name);
    if cs.len() == 0 || text::len_bytes(name) > 128 || text::contains(name, "..") {
        return None;
    }
    let mut i: usize = 0;
    while i < cs.len()
        invariant
            cs@ == name@,
            i <= cs@.len(),
            forall|j: int|
                0 <= j < i ==> (#[trigger] cs@[j]) != '\0' && cs@[j] != '/' && cs@[j] != '\\',
        decreases cs@.len() - i,
    {
        if cs[i] == '\0' || cs[i] == '/' || cs[i] == '\\' {
            assert(name@.contains(cs@[i as int]));
            return None;
        }
        i = i + 1;
    }
    Some(name.to_owned())
}

proof fn lemma_after_last(front: Seq<char>, name: Seq<char>)
    requires
        !name.contains('/'),
        front.len() == 0 || front.last() == '/',
    ensures
        text::after_last(front + name, '/') == name,
    decreases name.len(),
{
    let all = front + name;
    if name.len() == 0 {
        assert(all =~= front);
        assert(text::after_last(front, '/') =~= name);
    } else {
        assert(name.contains(name.last()));
        assert(all.last() == name.last());
        assert(all.drop_last() =~= front + name.drop_last());
        assert forall|i: int| 0 <= i < name.drop_last().len() implies name.drop_last()[i] != '/' by {
            assert(name.contains(name[i]));
        }
        lemma_after_last(front, name.drop_last());
        assert(name.drop_last().push(name.last()) =~= name);
    }
}

/// A safe name that is put behind a directory names a file of that directory.
pub proof fn law_safe_name_stays_in_its_directory(dir: Seq<char>, name: Seq<char>)
    requires
        safe_name(name),
    ensures
        text::after_last(paths::joined(dir, name), '/') == name,
        text::begins(paths::joined(dir, name), dir),
{
    reveal_strlit("/");
    assert(name.contains(name[0]));
    if dir.len() == 0 || dir.last() == '/' {
        lemma_after_last(dir, name);
        assert((dir + name).subrange(0, dir.len() as int) =~= dir);
    } else {
        let front = dir + "/"@;
        lemma_after_last(front, name);
        assert((front + name).subrange(0, dir.len() as int) =~= dir);
    }
}

/// The icon of an application: that of the desktop file with its name in lower case,
/// or with the last part of that name; else its name itself.
pub open spec fn icon_for(app_id: Seq<char>, icons: Map<Seq<char>, Seq<char>>) -> Seq<char> {
    icon_under(app_id, text::lowercase(app_id), icons)
}

/// The icon of an application, by its name in lower case.
pub open spec fn icon_under(
    app_id: Seq<char>,
    key: Seq<char>,
    icons: Map<Seq<char>, Seq<char>>,
) -> Seq<char> {
    let part = text::after_last(key, '.');
    if icons.dom().contains(key) {
        icons[key]
    } else if icons.dom().contains(part) {
        icons[part]
    } else {
        app_id
    }
}

/// The icon of an application.
pub fn icon_for_app(app_id: &str, entries: &NameMap<String>) -> (r: String)
    ensures
        r@ == icon_for(app_id@, desktop::icon_names(entries@)),
{
    find_icon(app_id, text::to_lowercase(app_id).as_str(), entries)
}

/// The icon of an application, by its name in lower case.
pub fn find_icon(app_id: &str, key: &str, entries: &NameMap<String>) -> (r: String)
    ensures
        r@ == icon_under(app_id@, key@, desktop::icon_names(entries@)),
{
    if let Some(icon) = entries.get(key) {
        return icon.clone();
    }
    let part: String = text::text_after_last(key, '.');
    if let Some(icon) = entries.get(part.as_str()) {
        return icon.clone();
    }
    app_id.to_owned()
}

/// The directories that hold pictures by name.
pub open spec fn pixmap_dirs() -> Seq<Seq<char>> {
    seq!["/usr/local/share/pixmaps"@, "/usr/share/pixmaps"@]
}

/// The endings of the pictures there.
pub open spec fn pixmap_endings() -> Seq<Seq<char>> {
    seq![".png"@, ".svg"@, ".xpm"@]
}

/// The files in which an icon is looked for: itself, where it is a path; then the
/// pictures with its name, by directory and ending.
pub open spec fn icon_files(icon: Seq<char>) -> Seq<Seq<char>> {
    let own = if paths::absolute(icon) {
        seq![icon]
    } else {
        Seq::empty()
    };
    own + Seq::new(
        6,
        |i: int| paths::joined(pixmap_dirs()[i / 3], icon + pixmap_endings()[i % 3]),
    )
}

/// The first of `files` that `existing` holds.
pub open spec fn first_existing(files: Seq<Seq<char>>, existing: Seq<Seq<char>>) -> Option<Seq<char>>
    decreases files.len(),
{
    if files.len() == 0 {
        None
    } else if existing.contains(files[0]) {
        Some(files[0])
    } else {
        first_existing(files.drop_first(), existing)
    }
}

/// The file that an icon is in, or its name where it is in none.
pub open spec fn resolved_icon(icon: Seq<char>, existing: Seq<Seq<char>>) -> Seq<char> {
    match first_existing(icon_files(icon), existing) {
        Some(f) => f,
        None => icon,
    }
}

/// The files in which an icon is looked for.
pub fn icon_file_candidates(icon: &str) -> (r: Vec<String>)
    ensures
        text::strs(r@) == icon_files(icon@),
{
    let mut r: Vec<String> = Vec::new();
    if paths::is_absolute(icon) {
        r.push(icon.to_owned());
    }
    let ghost own: Seq<Seq<char>> = text::strs(r@);
    let png: String = text::concat(icon, ".png");
    let svg: String = text::concat(icon, ".svg");
    let xpm: String = text::concat(icon, ".xpm");
    let local: &str = "/usr/local/share/pixmaps";
    let share: &str = "/usr/share/pixmaps";
    r.push(paths::join(local, png.as_str()));
    r.push(paths::join(local, svg.as_str()));
    r.push(paths::join(local, xpm.as_str()));
    r.push(paths::join(share, png.as_str()));
    r.push(paths::join(share, svg.as_str()));
    r.push(paths::join(share, xpm.as_str()));
    assert(text::strs(r@) =~= icon_files(icon@));
    r
}

/// The file that an icon is in, or its name where it is in none. `existing` holds the
/// candidates that exist.
pub fn resolve_icon_path_or_name(icon: &str, existing: &Vec<String>) -> (r: Option<String>)
    ensures
        text::opt(r) == Some(resolved_icon(icon@, text::strs(existing@))),
{
    let files: Vec<String> = icon_file_candidates(icon);
    let ghost all: Seq<Seq<char>> = text::strs(files@);
    let ghost there: Seq<Seq<char>> = text::strs(existing@);
    let mut i: usize = 0;
    assert(all.skip(0) =~= all);
    while i < files.len()
        invariant
            i <= files@.len(),
            all == text::strs(files@),
            all == icon_files(icon@),
            there == text::strs(existing@),
            first_existing(all.skip(i as int), there) == first_existing(all, there),
        decreases files@.len() - i,
    {
        assert(all.skip(i as int)[0] == files@[i as int]@);
        assert(all.skip(i as int).drop_first() =~= all.skip(i + 1));
        if text::list_has(existing, files[i].as_str()) {
            return Some(files[i].clone());
        }
        i = i + 1;
    }
    Some(icon.to_owned())
}

/// The file or the name of an application's icon. `existing` holds the candidates
/// that exist.
pub fn match_app_id_to_icon(
    app_id: &str,
    entries: &NameMap<String>,
    existing: &Vec<String>,
) -> (r: Option<String>)
    ensures
        text::opt(r) == Some(
            resolved_icon(
                icon_for(app_id@, desktop::icon_names(entries@)),
                text::strs(existing@),
            ),
        ),
{
    let icon: String = icon_for_app(app_id, entries);
    resolve_icon_path_or_name(icon.as_str(), existing)
}

/// The largest number of icons that are remembered.
pub const MAX_CACHE: usize = 512;

/// The icons of applications that were looked for.
#[derive(Debug)]
pub struct IconCache {
    pub found: NameMap<Option<String>>,
}

impl IconCache {
    /// No more icons are remembered than the limit says.
    pub open spec fn bounded(self) -> bool {
        self.found.entries().len() <= MAX_CACHE
    }

    /// Remembers nothing.
    pub fn new() -> (r: Self)
        ensures
            r.found@ == Map::<Seq<char>, Option<String>>::empty(),
            r.bounded(),
    {
        IconCache { found: NameMap::new() }
    }

    /// What is remembered of an application.
    pub fn lookup(&self, app_id: &str) -> (r: Option<&Option<String>>)
        ensures
            match r {
                Some(icon) => self.found@.dom().contains(app_id@) && *icon == self.found@[app_id@],
                None => !self.found@.dom().contains(app_id@),
            },
    {
        self.found.get(app_id)
    }

    /// Remembers the icon of an application. Where there is no room, all others are
    /// forgotten.
    pub fn store(&mut self, app_id: &str, icon: Option<String>)
        ensures
            final(self).found@ == (if old(self).found.entries().len() >= MAX_CACHE {
                Map::<Seq<char>, Option<String>>::empty()
            } else {
                old(self).found@
            }).insert(app_id@, icon),
            old(self).bounded() ==> final(self).bounded(),
    {
        if self.found.len() >= MAX_CACHE {
            self.found = NameMap::new();
        }
        self.found.insert(app_id.to_owned(), icon);
    }
}

// ---------------------------------------------------------------------------
// Sources
// ---------------------------------------------------------------------------

/// Where an icon may come from.
#[derive(Debug, Clone, PartialEq, Eq)]
pub enum IconSource {
    /// The pixels that an application sent.
    Pixels,
    /// A file.
    File(String),
    /// A name of the icon theme.
    Theme(String),
    /// Whatever `icon_sources` gives for the name.
    Named(String),
}

/// What a source says.
pub ghost enum SourceModel {
    Pixels,
    File(Seq<char>),
    Theme(Seq<char>),
    Named(Seq<char>),
}

impl IconSource {
    /// What this source says.
    pub open spec fn model(self) -> SourceModel {
        match self {
            IconSource::Pixels => SourceModel::Pixels,
            IconSource::File(s) => SourceModel::File(s@),
            IconSource::Theme(s) => SourceModel::Theme(s@),
            IconSource::Named(s) => SourceModel::Named(s@),
        }
    }
}

/// What sources say.
pub open spec fn source_models(v: Seq<IconSource>) -> Seq<SourceModel> {
    v.map_values(|s: IconSource| s.model())
}

/// A sequence of one value, or of none.
pub open spec fn only_if<T>(b: bool, x: T) -> Seq<T> {
    if b {
        seq![x]
    } else {
        Seq::empty()
    }
}

/// Where the icon with a name comes from, in the order in which it is looked for.
/// A path is that file and nothing else. A name that is not safe comes from nowhere.
/// Any other comes from what it resolves to, then from the icon theme under the
/// name, then under the name in lower case, then under the name for programs.
pub open spec fn sources_of(name: Seq<char>, resolved: Option<Seq<char>>) -> Seq<SourceModel> {
    sources_by(name, text::lowercase(name), resolved)
}

/// Where the icon with a name comes from, by the name in lower case.
pub open spec fn sources_by(
    name: Seq<char>,
    lower: Seq<char>,
    resolved: Option<Seq<char>>,
) -> Seq<SourceModel> {
    if paths::absolute(name) {
        seq![SourceModel::File(name)]
    } else if !safe_name(name) {
        Seq::empty()
    } else {
        (match resolved {
            Some(r) => if paths::absolute(r) {
                seq![SourceModel::File(r)]
            } else {
                only_if(safe_name(r), SourceModel::Theme(r))
            },
            None => Seq::empty(),
        }) + seq![SourceModel::Theme(name)] + only_if(safe_name(lower), SourceModel::Theme(lower))
            + seq![SourceModel::Theme("application-x-executable"@)]
    }
}

fn push_source(v: &mut Vec<IconSource>, s: IconSource)
    ensures
        source_models(final(v)@) == source_models(old(v)@).push(s.model()),
{
    v.push(s);
    assert(source_models(v@) =~= source_models(old(v)@).push(s.model()));
}

/// Where the icon with a name comes from, in the order in which it is looked for.
/// `resolved` is what the name resolves to.
pub fn icon_sources(name: &str, resolved: &Option<String>) -> (r: Vec<IconSource>)
    ensures
        source_models(r@) == sources_of(name@, text::opt(*resolved)),
{
    list_sources(name, text::to_lowercase(name).as_str(), resolved)
}

/// Where the icon with a name comes from, by the name in lower case.
pub fn list_sources(name: &str, lower: &str, resolved: &Option<String>) -> (r: Vec<IconSource>)
    ensures
        source_models(r@) == sources_by(name@, lower@, text::opt(*resolved)),
{
    let mut r: Vec<IconSource> = Vec::new();
    assert(source_models(r@) =~= Seq::empty());
    if paths::is_absolute(name) {
        push_source(&mut r, IconSource::File(name.to_owned()));
        assert(source_models(r@) =~= sources_by(name@, lower@, text::opt(*resolved)));
        return r;
    }
    match sanitize_icon_name(name) {
        Some(safe) => {
            if let Some(path) = resolved {
                if paths::is_absolute(path.as_str()) {
                    push_source(&mut r, IconSource::File(path.clone()));
                } else if let Some(named) = sanitize_icon_name(path.as_str()) {
                    push_source(&mut r, IconSource::Theme(named));
                }
            }
            push_source(&mut r, IconSource::Theme(safe));
            if let Some(named) = sanitize_icon_name(lower) {
                push_source(&mut r, IconSource::Theme(named));
            }
            push_source(&mut r, IconSource::Theme("application-x-executable".to_owned()));
            assert(source_models(r@) =~= sources_by(name@, lower@, text::opt(*resolved)));
            r
        },
        None => r,
    }
}

/// Every file that an icon is read from is a path that its caller gave, or one that
/// its name resolves to; every name that the theme is asked for is safe.
pub proof fn law_theme_names_are_safe(name: Seq<char>, resolved: Option<Seq<char>>, i: int)
    requires
        0 <= i < sources_of(name, resolved).len(),
    ensures
        match sources_of(name, resolved)[i] {
            SourceModel::File(f) => paths::absolute(f) && (f == name || Some(f) == resolved),
            SourceModel::Theme(t) => safe_name(t) || t == "application-x-executable"@,
            _ => false,
        },
{
}

/// Where the icon of an application comes from: its name or what that resolves to,
/// where they are paths; the icon theme under what it resolves to, under its name and
/// under its name in lower case; then the sources of its name.
pub open spec fn app_sources_of(app_id: Seq<char>, resolved: Option<Seq<char>>) -> Seq<SourceModel> {
    only_if(paths::absolute(app_id), SourceModel::File(app_id)) + (match resolved {
        Some(r) => only_if(paths::absolute(r), SourceModel::File(r)) + seq![SourceModel::Theme(r)],
        None => Seq::empty(),
    }) + seq![
        SourceModel::Theme(app_id),
        SourceModel::Theme(text::lowercase(app_id)),
        SourceModel::Named(app_id),
    ]
}

/// Where the icon of an application comes from, in the order in which it is looked
/// for.
pub fn app_icon_sources(app_id: &str, resolved: &Option<String>) -> (r: Vec<IconSource>)
    ensures
        source_models(r@) == app_sources_of(app_id@, text::opt(*resolved)),
{
    let mut r: Vec<IconSource> = Vec::new();
    assert(source_models(r@) =~= Seq::empty());
    if paths::is_absolute(app_id) {
        push_source(&mut r, IconSource::File(app_id.to_owned()));
    }
    if let Some(path) = resolved {
        if paths::is_absolute(path.as_str()) {
            push_source(&mut r, IconSource::File(path.clone()));
        }
        push_source(&mut r, IconSource::Theme(path.clone()));
    }
    push_source(&mut r, IconSource::Theme(app_id.to_owned()));
    push_source(&mut r, IconSource::Theme(text::to_lowercase(app_id)));
    push_source(&mut r, IconSource::Named(app_id.to_owned()));
    assert(source_models(r@) =~= app_sources_of(app_id@, text::opt(*resolved)));
    r
}

/// The endings with which an item's icon is looked for in its own directory.
pub open spec fn tray_endings() -> Seq<Seq<char>> {
    seq![""@, ".png"@, ".svg"@, ".ico"@, ".xpm"@, ".tga"@]
}

/// The parts of an icon theme in which it is looked for.
pub open spec fn theme_parts() -> Seq<Seq<char>> {
    seq!["scalable"@, "48x48"@, "32x32"@, "24x24"@, "22x22"@, "16x16"@]
}

/// A file in which an item's icon is looked for: right in its directory, or in a part
/// of the theme there.
pub open spec fn tray_file(dir: Seq<char>, file: Seq<char>, k: int) -> Seq<char> {
    if k == 0 {
        paths::joined(dir, file)
    } else {
        paths::joined(
            paths::joined(paths::joined(paths::joined(dir, "hicolor"@), theme_parts()[k - 1]), "apps"@),
            file,
        )
    }
}

/// The files in which an item's icon is looked for: for each ending, its directory
/// and the parts of the theme there.
pub open spec fn tray_files(dir: Seq<char>, name: Seq<char>) -> Seq<Seq<char>> {
    Seq::new(42, |i: int| tray_file(dir, name + tray_endings()[i / 7], i % 7))
}

fn theme_file(dir: &str, part: &str, file: &str) -> (r: String)
    ensures
        r@ == paths::joined(
            paths::joined(paths::joined(paths::joined(dir@, "hicolor"@), part@), "apps"@),
            file@,
        ),
{
    let theme: String = paths::join(dir, "hicolor");
    let size: String = paths::join(theme.as_str(), part);
    let apps: String = paths::join(size.as_str(), "apps");
    paths::join(apps.as_str(), file)
}

fn push_tray_files(v: &mut Vec<String>, dir: &str, name: &str, ending: &str)
    ensures
        text::strs(final(v)@) == text::strs(old(v)@) + Seq::new(
            7,
            |k: int| tray_file(dir@, name@ + ending@, k),
        ),
{
    let file: String = text::concat(name, ending);
    v.push(paths::join(dir, file.as_str()));
    v.push(theme_file(dir, "scalable", file.as_str()));
    v.push(theme_file(dir, "48x48", file.as_str()));
    v.push(theme_file(dir, "32x32", file.as_str()));
    v.push(theme_file(dir, "24x24", file.as_str()));
    v.push(theme_file(dir, "22x22", file.as_str()));
    v.push(theme_file(dir, "16x16", file.as_str()));
    assert(text::strs(v@) =~= text::strs(old(v)@) + Seq::new(
        7,
        |k: int| tray_file(dir@, name@ + ending@, k),
    ));
}

/// The files in which an item's icon is looked for.
pub fn tray_icon_files(dir: &str, name: &str) -> (r: Vec<String>)
    ensures
        text::strs(r@) == tray_files(dir@, name@),
{
    let mut r: Vec<String> = Vec::new();
    assert(text::strs(r@) =~= Seq::empty());
    push_tray_files(&mut r, dir, name, "");
    push_tray_files(&mut r, dir, name, ".png");
    push_tray_files(&mut r, dir, name, ".svg");
    push_tray_files(&mut r, dir, name, ".ico");
    push_tray_files(&mut r, dir, name, ".xpm");
    push_tray_files(&mut r, dir, name, ".tga");
    assert(text::strs(r@) =~= tray_files(dir@, name@));
    r
}

/// A text that is there and not blank.
pub open spec fn filled(s: Option<Seq<char>>) -> bool {
    s is Some && !text::is_blank(s->0)
}

/// Where the icon of an item comes from: its pixels; the files of its own directory,
/// its name as a path and the sources of its name; the sources of its id and of its
/// id in lower case.
pub open spec fn tray_sources_of(
    name: Option<Seq<char>>,
    pixels: bool,
    dir: Option<Seq<char>>,
    id: Seq<char>,
) -> Seq<SourceModel> {
    only_if(pixels, SourceModel::Pixels) + (if filled(name) {
        (if filled(dir) {
            tray_files(dir->0, name->0).map_values(|f: Seq<char>| SourceModel::File(f))
        } else {
            Seq::empty()
        }) + only_if(paths::absolute(name->0), SourceModel::File(name->0)) + seq![
            SourceModel::Named(name->0),
        ]
    } else {
        Seq::empty()
    }) + (if text::is_blank(id) {
        Seq::empty()
    } else {
        seq![SourceModel::Named(id), SourceModel::Named(text::lowercase(id))]
    })
}

fn push_files(v: &mut Vec<IconSource>, files: &Vec<String>)
    ensures
        source_models(final(v)@) == source_models(old(v)@) + text::strs(files@).map_values(
            |f: Seq<char>| SourceModel::File(f),
        ),
{
    let ghost all: Seq<SourceModel> = text::strs(files@).map_values(
        |f: Seq<char>| SourceModel::File(f),
    );
    let ghost before: Seq<SourceModel> = source_models(v@);
    let mut i: usize = 0;
    assert(before + all.take(0) =~= before);
    while i < files.len()
        invariant
            i <= files@.len(),
            all == text::strs(files@).map_values(|f: Seq<char>| SourceModel::File(f)),
            source_models(v@) == before + all.take(i as int),
        decreases files@.len() - i,
    {
        push_source(v, IconSource::File(files[i].clone()));
        assert(before + all.take(i + 1) =~= (before + all.take(i as int)).push(all[i as int]));
        i = i + 1;
    }
    assert(all.take(i as int) =~= all);
}

/// Where the icon of an item comes from, in the order in which it is looked for.
pub fn tray_icon_sources(
    name: &Option<String>,
    pixels: bool,
    dir: &Option<String>,
    id: &str,
) -> (r: Vec<IconSource>)
    ensures
        source_models(r@) == tray_sources_of(text::opt(*name), pixels, text::opt(*dir), id@),
{
    let mut r: Vec<IconSource> = Vec::new();
    assert(source_models(r@) =~= Seq::empty());
    if pixels {
        push_source(&mut r, IconSource::Pixels);
    }
    if let Some(n) = name {
        if !text::blank(n.as_str()) {
            if let Some(d) = dir {
                if !text::blank(d.as_str()) {
                    push_files(&mut r, &tray_icon_files(d.as_str(), n.as_str()));
                }
            }
            if paths::is_absolute(n.as_str()) {
                push_source(&mut r, IconSource::File(n.clone()));
            }
            push_source(&mut r, IconSource::Named(n.clone()));
        }
    }
    if !text::blank(id) {
        push_source(&mut r, IconSource::Named(id.to_owned()));
        push_source(&mut r, IconSource::Named(text::to_lowercase(id)));
    }
    assert(source_models(r@) =~= tray_sources_of(text::opt(*name), pixels, text::opt(*dir), id@));
    r
}

/// Whether the icon of an item is left to the icon theme: the item sends no pixels
/// and names no directory of its own, and the theme knows the name, which is no path.
pub fn uses_theme_icon(
    name: &Option<String>,
    pixels: bool,
    dir: &Option<String>,
    known: bool,
) -> (r: bool)
    ensures
        r == (!pixels && *dir is None && known && match text::opt(*name) {
            Some(n) => !paths::absolute(n),
            None => false,
        }),
{
    match name {
        Some(n) => !pixels && dir.is_none() && known && !paths::is_absolute(n.as_str()),
        None => false,
    }
}

// ---------------------------------------------------------------------------
// Which icon is shown
// ---------------------------------------------------------------------------

/// Of several icons that are equally large, the last is taken.
pub proof fn law_last_of_the_largest_is_taken(ps: Seq<RawIconPixmap>, i: int, j: int)
    requires
        largest(ps) == Some(i),
        i < j < ps.len(),
        0 < ps[j].width <= 512,
        0 < ps[j].height <= 512,
    ensures
        ps[j].width * ps[j].height < ps[i].width * ps[i].height,
    decreases ps.len(),
{
    law_largest_is_largest(ps);
    let front = ps.drop_last();
    if j < ps.len() - 1 {
        assert(front[j] == ps[j]);
        law_largest_is_largest(front);
        assert(largest(front) == Some(i));
        law_last_of_the_largest_is_taken(front, i, j);
        assert(front[i] == ps[i]);
    }
}

/// The size of an icon is in bounds from one to five hundred and twelve pixels a side.
pub proof fn law_icon_sides_are_bounded(p: RawIconPixmap)
    ensures
        sized(p) <==> 1 <= p.width <= 512 && 1 <= p.height <= 512,
        pixel_count(p) == p.width * p.height,
{
}

/// Each pixel keeps its place. Its alpha channel goes behind its colours, which keep their
/// order.
pub proof fn law_alpha_goes_last(p: Seq<u8>, k: int)
    requires
        0 <= k,
        4 * k + 3 < p.len(),
    ensures
        rgba(p).len() == p.len(),
        rgba(p)[4 * k] == p[4 * k + 1],
        rgba(p)[4 * k + 1] == p[4 * k + 2],
        rgba(p)[4 * k + 2] == p[4 * k + 3],
        rgba(p)[4 * k + 3] == p[4 * k],
{
}

/// A pixel shows where its fourth channel is above ten, in the row and column where it
/// stands.
pub proof fn law_pixel_shows_by_its_alpha(p: PixelImage, x: int, y: int)
    requires
        0 <= x < p.width,
        0 <= y < p.height,
    ensures
        opaque_at(p, x, y) <==> y * p.rowstride + x * p.n_channels + 3 < p.pixels@.len() && p.pixels@[y * p.rowstride + x
            * p.n_channels + 3] > 10,
{
}

/// A box around all that shows holds every pixel that shows, and touches one at each side.
pub proof fn law_box_is_tight(p: PixelImage, b: (i32, i32, i32, i32), x: int, y: int) -> (q: (int, int, int, int))
    requires
        is_bbox(p, b),
    ensures
        opaque_at(p, x, y) ==> b.0 <= x <= b.2 && b.1 <= y <= b.3,
        opaque_at(p, b.0 as int, q.0),
        opaque_at(p, q.1, b.1 as int),
        opaque_at(p, b.2 as int, q.2),
        opaque_at(p, q.3, b.3 as int),
{
    (
        choose|y: int| opaque_at(p, b.0 as int, y),
        choose|x: int| opaque_at(p, x, b.1 as int),
        choose|y: int| opaque_at(p, b.2 as int, y),
        choose|x: int| opaque_at(p, x, b.3 as int),
    )
}

/// The whole picture goes from its first column and row to its last.
pub proof fn law_whole_picture_has_its_own_sides(p: PixelImage)
    requires
        p.width > 0,
        p.height > 0,
    ensures
        whole(p) == (0int, 0int, p.width - 1, p.height - 1),
{
}

/// A name is safe if it is not empty, has at most a hundred and twenty-eight bytes, and holds
/// neither a separator of paths, nor a step up, nor a null character.
pub proof fn law_safe_names_are_no_paths(name: Seq<char>)
    ensures
        safe_name(name) <==> name.len() > 0 && vstd::utf8::encode_utf8(name).len() <= 128 && (forall|i: int|
            0 <= i < name.len() ==> #[trigger] name[i] != '/' && name[i] != '\\' && name[i] != '\0') && !text::has(
            name,
            ".."@,
        ),
{
    if safe_name(name) {
        assert forall|i: int| 0 <= i < name.len() implies #[trigger] name[i] != '/' && name[i] != '\\' && name[i] != '\0' by {
            assert(name.contains(name[i]));
        }
    }
}

/// The icon of an application is that under its name, else that under the last part of its
/// name, else its own name.
pub proof fn law_icon_is_found_by_name_then_by_part(
    app_id: Seq<char>,
    icons: Map<Seq<char>, Seq<char>>,
    front: Seq<char>,
    part: Seq<char>,
)
    requires
        text::lowercase(app_id) == front + seq!['.'] + part,
        forall|i: int| 0 <= i < part.len() ==> #[trigger] part[i] != '.',
    ensures
        icons.dom().contains(text::lowercase(app_id)) ==> icon_for(app_id, icons) == icons[text::lowercase(app_id)],
        !icons.dom().contains(text::lowercase(app_id)) && icons.dom().contains(part) ==> icon_for(app_id, icons)
            == icons[part],
        !icons.dom().contains(text::lowercase(app_id)) && !icons.dom().contains(part) ==> icon_for(app_id, icons)
            == app_id,
{
    text::law_text_after_the_last_mark(front, '.', part);
}

/// An icon is looked for as a file where it is a path, and by its name among the pictures of
/// the system: those of the machine first, by the three endings.
pub proof fn law_icon_is_looked_for_in_order(icon: Seq<char>)
    ensures
        icon.len() > 0 && icon[0] == '/' ==> icon_files(icon).len() == 7 && icon_files(icon)[0] == icon,
        icon.len() > 0 && icon[0] != '/' ==> icon_files(icon) == seq![
            "/usr/local/share/pixmaps"@ + "/"@ + (icon + ".png"@),
            "/usr/local/share/pixmaps"@ + "/"@ + (icon + ".svg"@),
            "/usr/local/share/pixmaps"@ + "/"@ + (icon + ".xpm"@),
            "/usr/share/pixmaps"@ + "/"@ + (icon + ".png"@),
            "/usr/share/pixmaps"@ + "/"@ + (icon + ".svg"@),
            "/usr/share/pixmaps"@ + "/"@ + (icon + ".xpm"@),
        ],
{
    reveal_strlit("/usr/local/share/pixmaps");
    reveal_strlit("/usr/share/pixmaps");
    if icon.len() > 0 && icon[0] != '/' {
        let f = icon_files(icon);
        assert((icon + ".png"@)[0] == icon[0] && (icon + ".svg"@)[0] == icon[0] && (icon + ".xpm"@)[0] == icon[0]);
        assert(f[0] == paths::joined(pixmap_dirs()[0], icon + pixmap_endings()[0]));
        assert(f[1] == paths::joined(pixmap_dirs()[0], icon + pixmap_endings()[1]));
        assert(f[2] == paths::joined(pixmap_dirs()[0], icon + pixmap_endings()[2]));
        assert(f[3] == paths::joined(pixmap_dirs()[1], icon + pixmap_endings()[0]));
        assert(f[4] == paths::joined(pixmap_dirs()[1], icon + pixmap_endings()[1]));
        assert(f[5] == paths::joined(pixmap_dirs()[1], icon + pixmap_endings()[2]));
        assert(f =~= seq![
            "/usr/local/share/pixmaps"@ + "/"@ + (icon + ".png"@),
            "/usr/local/share/pixmaps"@ + "/"@ + (icon + ".svg"@),
            "/usr/local/share/pixmaps"@ + "/"@ + (icon + ".xpm"@),
            "/usr/share/pixmaps"@ + "/"@ + (icon + ".png"@),
            "/usr/share/pixmaps"@ + "/"@ + (icon + ".svg"@),
            "/usr/share/pixmaps"@ + "/"@ + (icon + ".xpm"@),
        ]);
    }
}

proof fn lemma_first_existing(files: Seq<Seq<char>>, existing: Seq<Seq<char>>, k: int)
    requires
        0 <= k <= files.len(),
        forall|j: int| 0 <= j < k ==> !existing.contains(#[trigger] files[j]),
        k < files.len() ==> existing.contains(files[k]),
    ensures
        first_existing(files, existing) == (if k < files.len() {
            Some(files[k])
        } else {
            None
        }),
    decreases files.len(),
{
    if files.len() > 0 && k > 0 {
        assert(!existing.contains(files[0]));
        let d = files.drop_first();
        assert forall|j: int| 0 <= j < k - 1 implies !existing.contains(#[trigger] d[j]) by {
            assert(d[j] == files[j + 1]);
        }
        if k < files.len() {
            assert(d[k - 1] == files[k]);
        }
        lemma_first_existing(d, existing, k - 1);
    }
}

/// The first file that is there is taken, and the name where none is.
pub proof fn law_first_file_that_is_there_is_taken(icon: Seq<char>, existing: Seq<Seq<char>>, k: int)
    requires
        0 <= k <= icon_files(icon).len(),
        forall|j: int| 0 <= j < k ==> !existing.contains(#[trigger] icon_files(icon)[j]),
        k < icon_files(icon).len() ==> existing.contains(icon_files(icon)[k]),
    ensures
        k < icon_files(icon).len() ==> resolved_icon(icon, existing) == icon_files(icon)[k],
        k == icon_files(icon).len() ==> resolved_icon(icon, existing) == icon,
{
    lemma_first_existing(icon_files(icon), existing, k);
}

/// Sources that say the same are of one kind and of one name.
pub proof fn law_sources_that_say_the_same_agree(a: IconSource, b: IconSource)
    requires
        a.model() == b.model(),
    ensures
        a is Pixels <==> b is Pixels,
        a matches IconSource::File(s) ==> (b matches IconSource::File(t) && s@ == t@),
        a matches IconSource::Theme(s) ==> (b matches IconSource::Theme(t) && s@ == t@),
        a matches IconSource::Named(s) ==> (b matches IconSource::Named(t) && s@ == t@),
{
}

/// A path is read as that file. A name is looked for under what it resolves to, then in the
/// theme under itself, under itself in lower case, and under the name for programs.
pub proof fn law_names_are_looked_for_in_order(name: Seq<char>, lower: Seq<char>, resolved: Seq<char>)
    ensures
        name.len() > 0 && name[0] == '/' ==> sources_by(name, lower, Some(resolved)) == seq![SourceModel::File(name)],
        !paths::absolute(name) && !safe_name(name) ==> sources_by(name, lower, Some(resolved)).len() == 0,
        !paths::absolute(name) && safe_name(name) && safe_name(lower) && resolved.len() > 0 && resolved[0] == '/'
            ==> sources_by(name, lower, Some(resolved)) == seq![
            SourceModel::File(resolved),
            SourceModel::Theme(name),
            SourceModel::Theme(lower),
            SourceModel::Theme("application-x-executable"@),
        ],
        !paths::absolute(name) && safe_name(name) && safe_name(lower) && !paths::absolute(resolved) && safe_name(resolved)
            ==> sources_by(name, lower, Some(resolved)) == seq![
            SourceModel::Theme(resolved),
            SourceModel::Theme(name),
            SourceModel::Theme(lower),
            SourceModel::Theme("application-x-executable"@),
        ],
        !paths::absolute(name) && safe_name(name) && safe_name(lower) ==> sources_by(name, lower, None) == seq![
            SourceModel::Theme(name),
            SourceModel::Theme(lower),
            SourceModel::Theme("application-x-executable"@),
        ],
{
    if !paths::absolute(name) && safe_name(name) && safe_name(lower) {
        let tail = seq![
            SourceModel::Theme(name),
            SourceModel::Theme(lower),
            SourceModel::Theme("application-x-executable"@),
        ];
        assert(sources_by(name, lower, None) =~= tail);
        if paths::absolute(resolved) {
            assert(sources_by(name, lower, Some(resolved)) =~= seq![SourceModel::File(resolved)] + tail);
            assert(seq![SourceModel::File(resolved)] + tail =~= seq![
                SourceModel::File(resolved),
                SourceModel::Theme(name),
                SourceModel::Theme(lower),
                SourceModel::Theme("application-x-executable"@),
            ]);
        } else if safe_name(resolved) {
            assert(sources_by(name, lower, Some(resolved)) =~= seq![SourceModel::Theme(resolved)] + tail);
            assert(seq![SourceModel::Theme(resolved)] + tail =~= seq![
                SourceModel::Theme(resolved),
                SourceModel::Theme(name),
                SourceModel::Theme(lower),
                SourceModel::Theme("application-x-executable"@),
            ]);
        }
    }
}

/// The icon of an application is looked for as what its name resolves to, then in the theme
/// under its name and its name in lower case, then by its name.
pub proof fn law_applications_are_looked_for_in_order(app_id: Seq<char>, resolved: Seq<char>)
    requires
        !paths::absolute(app_id),
    ensures
        app_sources_of(app_id, None) == seq![
            SourceModel::Theme(app_id),
            SourceModel::Theme(text::lowercase(app_id)),
            SourceModel::Named(app_id),
        ],
        !paths::absolute(resolved) ==> app_sources_of(app_id, Some(resolved)) == seq![
            SourceModel::Theme(resolved),
            SourceModel::Theme(app_id),
            SourceModel::Theme(text::lowercase(app_id)),
            SourceModel::Named(app_id),
        ],
        paths::absolute(resolved) ==> app_sources_of(app_id, Some(resolved)) == seq![
            SourceModel::File(resolved),
            SourceModel::Theme(resolved),
            SourceModel::Theme(app_id),
            SourceModel::Theme(text::lowercase(app_id)),
            SourceModel::Named(app_id),
        ],
{
    assert(app_sources_of(app_id, None) =~= seq![
        SourceModel::Theme(app_id),
        SourceModel::Theme(text::lowercase(app_id)),
        SourceModel::Named(app_id),
    ]);
    if paths::absolute(resolved) {
        assert(app_sources_of(app_id, Some(resolved)) =~= seq![
            SourceModel::File(resolved),
            SourceModel::Theme(resolved),
            SourceModel::Theme(app_id),
            SourceModel::Theme(text::lowercase(app_id)),
            SourceModel::Named(app_id),
        ]);
    } else {
        assert(app_sources_of(app_id, Some(resolved)) =~= seq![
            SourceModel::Theme(resolved),
            SourceModel::Theme(app_id),
            SourceModel::Theme(text::lowercase(app_id)),
            SourceModel::Named(app_id),
        ]);
    }
}

/// An application whose name is a path has its icon there first.
pub proof fn law_application_path_comes_first(app_id: Seq<char>, resolved: Option<Seq<char>>)
    requires
        app_id.len() > 0,
        app_id[0] == '/',
    ensures
        app_sources_of(app_id, resolved).len() > 0,
        app_sources_of(app_id, resolved)[0] == SourceModel::File(app_id),
{
}

/// The endings and the parts of a theme in which the icon of an item is looked for.
pub open spec fn is_tray_file(dir: Seq<char>, name: Seq<char>, ending: Seq<char>, part: Option<Seq<char>>, f: Seq<char>) -> bool {
    match part {
        None => f == paths::joined(dir, name + ending),
        Some(p) => f == paths::joined(
            paths::joined(paths::joined(paths::joined(dir, "hicolor"@), p), "apps"@),
            name + ending,
        ),
    }
}

/// The icon of an item is looked for by its bare name first and then by five endings, each
/// time right in its directory and then in the theme there, the largest pictures first.
pub proof fn law_item_files_are_looked_for_in_order(dir: Seq<char>, name: Seq<char>, e: int)
    requires
        0 <= e < 6,
    ensures
        tray_files(dir, name).len() == 42,
        ({
            let ending = seq![""@, ".png"@, ".svg"@, ".ico"@, ".xpm"@, ".tga"@][e];
            let f = tray_files(dir, name);
            &&& is_tray_file(dir, name, ending, None, f[7 * e])
            &&& is_tray_file(dir, name, ending, Some("scalable"@), f[7 * e + 1])
            &&& is_tray_file(dir, name, ending, Some("48x48"@), f[7 * e + 2])
            &&& is_tray_file(dir, name, ending, Some("32x32"@), f[7 * e + 3])
            &&& is_tray_file(dir, name, ending, Some("24x24"@), f[7 * e + 4])
            &&& is_tray_file(dir, name, ending, Some("22x22"@), f[7 * e + 5])
            &&& is_tray_file(dir, name, ending, Some("16x16"@), f[7 * e + 6])
        }),
{
    let f = tray_files(dir, name);
    assert((7 * e) / 7 == e && (7 * e + 1) / 7 == e && (7 * e + 2) / 7 == e && (7 * e + 3) / 7 == e);
    assert((7 * e + 4) / 7 == e && (7 * e + 5) / 7 == e && (7 * e + 6) / 7 == e);
    assert((7 * e) % 7 == 0 && (7 * e + 1) % 7 == 1 && (7 * e + 2) % 7 == 2 && (7 * e + 3) % 7 == 3);
    assert((7 * e + 4) % 7 == 4 && (7 * e + 5) % 7 == 5 && (7 * e + 6) % 7 == 6);
    assert(tray_endings() =~= seq![""@, ".png"@, ".svg"@, ".ico"@, ".xpm"@, ".tga"@]);
}

/// The icon of an item comes from its pixels first, then from its name, then from its id; what
/// is blank or missing is passed over.
pub proof fn law_item_icon_comes_from_pixels_name_and_id(name: Seq<char>, id: Seq<char>, pixels: bool)
    requires
        exists|i: int| 0 <= i < name.len() && !text::is_white(#[trigger] name[i]),
        exists|i: int| 0 <= i < id.len() && !text::is_white(#[trigger] id[i]),
        !paths::absolute(name),
    ensures
        tray_sources_of(Some(name), pixels, None, id) == (if pixels {
            seq![SourceModel::Pixels]
        } else {
            Seq::empty()
        }) + seq![SourceModel::Named(name), SourceModel::Named(id), SourceModel::Named(text::lowercase(id))],
        tray_sources_of(None, pixels, None, id) == (if pixels {
            seq![SourceModel::Pixels]
        } else {
            Seq::empty()
        }) + seq![SourceModel::Named(id), SourceModel::Named(text::lowercase(id))],
{
    assert(filled(Some(name)));
    assert(!text::is_blank(id));
    assert(tray_sources_of(Some(name), pixels, None, id) =~= (if pixels {
        seq![SourceModel::Pixels]
    } else {
        Seq::empty()
    }) + seq![SourceModel::Named(name), SourceModel::Named(id), SourceModel::Named(text::lowercase(id))]);
    assert(tray_sources_of(None, pixels, None, id) =~= (if pixels {
        seq![SourceModel::Pixels]
    } else {
        Seq::empty()
    }) + seq![SourceModel::Named(id), SourceModel::Named(text::lowercase(id))]);
}

/// An item with a directory of its own has its icon looked for there before elsewhere.
pub proof fn law_own_directory_comes_before_the_name(name: Seq<char>, dir: Seq<char>, id: Seq<char>, i: int)
    requires
        exists|i: int| 0 <= i < name.len() && !text::is_white(#[trigger] name[i]),
        exists|i: int| 0 <= i < dir.len() && !text::is_white(#[trigger] dir[i]),
        0 <= i < 42,
    ensures
        tray_sources_of(Some(name), false, Some(dir), id).len() > 42,
        tray_sources_of(Some(name), false, Some(dir), id)[i] == SourceModel::File(tray_files(dir, name)[i]),
{
    assert(filled(Some(name)));
    assert(filled(Some(dir)));
}

/// A picture shows where one of its pixels does.
pub proof fn law_picture_shows_by_its_pixels(p: PixelImage, x: int, y: int) -> (q: (int, int))
    ensures
        opaque_at(p, x, y) ==> any_opaque(p),
        any_opaque(p) ==> opaque_at(p, q.0, q.1),
{
    choose|x: int, y: int| opaque_at(p, x, y)
}

/// Sources are looked at one by one.
pub proof fn law_sources_stand_in_their_order(v: Seq<IconSource>, i: int)
    requires
        0 <= i < v.len(),
    ensures
        source_models(v).len() == v.len(),
        source_models(v)[i] == v[i].model(),
{
}

/// No more than five hundred and twelve icons are remembered.
pub proof fn law_cache_holds_so_many_icons(c: IconCache)
    ensures
        c.bounded() <==> c.found.entries().len() <= 512,
        MAX_CACHE == 512,
{
}

} // verus!
