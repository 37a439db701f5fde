//! Desktop files: where they are, and which icon each application names in them.
use vstd::prelude::*;

use freedesktop_desktop_entry::DesktopEntry;

use crate::names::NameMap;
use crate::paths;
use crate::text;

verus! {

/// The icon that the desktop file with a path and a content names, where it is one.
pub uninterp spec fn desktop_icon(path: Seq<char>, input: Seq<char>) -> Option<Seq<char>>;

/// The window class that the desktop file with a path and a content names, where it
/// is one.
pub uninterp spec fn desktop_class(path: Seq<char>, input: Seq<char>) -> Option<Seq<char>>;

/// The name that the desktop file with a path and a content gives the application,
/// where it is one.
pub uninterp spec fn desktop_name(path: Seq<char>, input: Seq<char>) -> Option<Seq<char>>;

/// What a desktop file says.
#[derive(Clone, Debug, PartialEq, Eq)]
pub struct DesktopFields {
    pub icon: Option<String>,
    pub startup_wm_class: Option<String>,
    pub name: Option<String>,
}

/// Calls `DesktopEntry::from_str` of `freedesktop_desktop_entry` without a filter of
/// locales, and reads `icon`, `startup_wm_class` and, for no locale, `name` of the entry.
/// Where the text is no desktop file there is none. The crate is built without its
/// support for message catalogues, so the name is the one that the file gives as such.
#[verifier::external_body]
fn read_fields(path: &str, input: &str) -> (r: Option<DesktopFields>)
    ensures
        match r {
            Some(f) => text::opt(f.icon) == desktop_icon(path@, input@) && text::opt(
                f.startup_wm_class,
            ) == desktop_class(path@, input@) && text::opt(f.name) == desktop_name(path@, input@),
            None => desktop_icon(path@, input@) is None && desktop_class(path@, input@) is None
                && desktop_name(path@, input@) is None,
        },
{
    let entry = DesktopEntry::from_str(path, input, None::<&[&str]>).ok()?;
    Some(DesktopFields {
        icon: entry.icon().map(|s| s.to_string()),
        startup_wm_class: entry.startup_wm_class().map(|s| s.to_string()),
        name: entry.name::<&str>(&[]).map(|s| s.to_string()),
    })
}

/// The names of icons, by the names of applications in lower case.
pub open spec fn icon_names(m: Map<Seq<char>, String>) -> Map<Seq<char>, Seq<char>> {
    m.map_values(|s: String| s@)
}

/// The icon goes under the key, unless another stands there.
pub open spec fn with_name(
    m: Map<Seq<char>, Seq<char>>,
    key: Option<Seq<char>>,
    icon: Seq<char>,
) -> Map<Seq<char>, Seq<char>> {
    match key {
        Some(k) => if m.dom().contains(text::lowercase(k)) {
            m
        } else {
            m.insert(text::lowercase(k), icon)
        },
        None => m,
    }
}

/// The icons with those of a desktop file: under the name of the file, the window
/// class and the name of the application, in lower case. What came first stays.
pub open spec fn with_entry(
    m: Map<Seq<char>, Seq<char>>,
    stem: Seq<char>,
    icon: Option<Seq<char>>,
    class: Option<Seq<char>>,
    name: Option<Seq<char>>,
) -> Map<Seq<char>, Seq<char>> {
    match icon {
        Some(i) => with_name(with_name(with_name(m, Some(stem), i), class, i), name, i),
        None => m,
    }
}

fn add_name(m: &mut NameMap<String>, key: &str, icon: &String)
    ensures
        icon_names(final(m)@) == with_name(icon_names(old(m)@), Some(key@), icon@),
{
    add_icon(m, text::to_lowercase(key), icon);
}

/// Adds an icon under a name in lower case. What came first stays.
pub fn add_icon(m: &mut NameMap<String>, key: String, icon: &String)
    ensures
        icon_names(final(m)@) == (if icon_names(old(m)@).dom().contains(key@) {
            icon_names(old(m)@)
        } else {
            icon_names(old(m)@).insert(key@, icon@)
        }),
{
    if !m.contains_key(key.as_str()) {
        let ghost k: Seq<char> = key@;
        m.insert(key, icon.clone());
        assert(icon_names(m@) =~= icon_names(old(m)@).insert(k, icon@));
    }
}

/// Adds what a desktop file says to the icons.
pub fn add_desktop_entry(m: &mut NameMap<String>, stem: &str, fields: &DesktopFields)
    ensures
        icon_names(final(m)@) == with_entry(
            icon_names(old(m)@),
            stem@,
            text::opt(fields.icon),
            text::opt(fields.startup_wm_class),
            text::opt(fields.name),
        ),
{
    if let Some(icon) = &fields.icon {
        add_name(m, stem, icon);
        if let Some(class) = &fields.startup_wm_class {
            add_name(m, class.as_str(), icon);
        }
        if let Some(name) = &fields.name {
            add_name(m, name.as_str(), icon);
        }
    }
}

/// The name of a desktop file without its ending; `None` for another file.
pub open spec fn stem_of(file_name: Seq<char>) -> Option<Seq<char>> {
    if text::ends(file_name, ".desktop"@) && file_name.len() > ".desktop"@.len() {
        Some(file_name.take(file_name.len() - ".desktop"@.len()))
    } else {
        None
    }
}

/// The name of a desktop file without its ending.
pub fn desktop_stem(file_name: &str) -> (r: Option<String>)
    ensures
        text::opt(r) == stem_of(file_name@),
{
    let cs: Vec<char> = text::chars_of(file_name);
    proof {
        reveal_strlit(".desktop");
    }
    if cs.len() > 8 && text::ends_with(file_name, ".desktop") {
        assert(cs@.subrange(0, cs@.len() - 8) =~= file_name@.take(file_name@.len() - 8));
        Some(text::string_of(&cs, 0, cs.len() - 8))
    } else {
        None
    }
}

/// Adds the icon that a file of a directory names. Files that are not desktop files
/// name none.
pub fn index_desktop_file(m: &mut NameMap<String>, dir: &str, file_name: &str, input: &str)
    ensures
        icon_names(final(m)@) == (match stem_of(file_name@) {
            Some(stem) => with_entry(
                icon_names(old(m)@),
                stem,
                desktop_icon(paths::joined(dir@, file_name@), input@),
                desktop_class(paths::joined(dir@, file_name@), input@),
                desktop_name(paths::joined(dir@, file_name@), input@),
            ),
            None => icon_names(old(m)@),
        }),
{
    if let Some(stem) = desktop_stem(file_name) {
        let path: String = paths::join(dir, file_name);
        if let Some(fields) = read_fields(path.as_str(), input) {
            add_desktop_entry(m, stem.as_str(), &fields);
        }
    }
}

/// A desktop file takes no icon away that another one gave.
pub proof fn law_first_icon_stays(
    m: Map<Seq<char>, Seq<char>>,
    stem: Seq<char>,
    icon: Option<Seq<char>>,
    class: Option<Seq<char>>,
    name: Option<Seq<char>>,
    key: Seq<char>,
)
    requires
        m.dom().contains(key),
    ensures
        with_entry(m, stem, icon, class, name).dom().contains(key),
        with_entry(m, stem, icon, class, name)[key] == m[key],
{
}

// ---------------------------------------------------------------------------
// Directories
// ---------------------------------------------------------------------------

/// The directory of the user's own data, if it is known.
pub open spec fn user_data(data_home: Option<Seq<char>>, home: Option<Seq<char>>) -> Option<Seq<char>> {
    match data_home {
        Some(d) => Some(d),
        None => match home {
            Some(h) => Some(paths::joined(h, ".local/share"@)),
            None => None,
        },
    }
}

/// Any text that is not empty.
pub open spec fn not_empty() -> spec_fn(Seq<char>) -> bool {
    |s: Seq<char>| s.len() > 0
}

/// The directories that hold data: the user's own, then those of the system.
pub open spec fn data_dirs(
    data_home: Option<Seq<char>>,
    home: Option<Seq<char>>,
    dirs: Option<Seq<char>>,
) -> Seq<Seq<char>> {
    let own = match user_data(data_home, home) {
        Some(d) => seq![d, paths::joined(d, "flatpak/exports/share"@)],
        None => Seq::empty(),
    };
    let system = match dirs {
        Some(d) => text::parts_of(d, ':').filter(not_empty()),
        None => seq![
            "/usr/local/share"@,
            "/usr/share"@,
            "/var/lib/flatpak/exports/share"@,
        ],
    };
    own + system
}

fn filled_parts(s: &str) -> (r: Vec<String>)
    ensures
        text::strs(r@) == text::parts_of(s@, ':').filter(not_empty()),
{
    let parts: Vec<String> = text::split(s, ':');
    let ghost all: Seq<Seq<char>> = text::strs(parts@);
    let ghost keep = not_empty();
    let mut r: Vec<String> = Vec::new();
    let mut i: usize = 0;
    assert(text::strs(r@) =~= all.take(0).filter(keep)) by {
        reveal(Seq::filter);
    }
    while i < parts.len()
        invariant
            i <= parts@.len(),
            all == text::strs(parts@),
            keep == not_empty(),
            text::strs(r@) == all.take(i as int).filter(keep),
        decreases parts@.len() - i,
    {
        proof {
            reveal(Seq::filter);
            assert(all.take(i + 1).drop_last() =~= all.take(i as int));
            assert(all.take(i + 1).last() == parts@[i as int]@);
        }
        if text::len_chars(parts[i].as_str()) > 0 {
            let ghost so_far: Seq<String> = r@;
            r.push(parts[i].clone());
            assert(text::strs(r@) =~= text::strs(so_far).push(parts@[i as int]@));
        }
        i = i + 1;
    }
    assert(all.take(i as int) =~= all);
    r
}

/// The directories that hold data, by the environment's `XDG_DATA_HOME`, `HOME` and
/// `XDG_DATA_DIRS`.
pub fn get_data_dirs(
    xdg_data_home: Option<&str>,
    home: Option<&str>,
    xdg_data_dirs: Option<&str>,
) -> (r: Vec<String>)
    ensures
        text::strs(r@) == data_dirs(
            text::opt_str(xdg_data_home),
            text::opt_str(home),
            text::opt_str(xdg_data_dirs),
        ),
{
    let own: Option<String> = match xdg_data_home {
        Some(d) => Some(d.to_owned()),
        None => match home {
            Some(h) => Some(paths::join(h, ".local/share")),
            None => None,
        },
    };
    let mut r: Vec<String> = Vec::new();
    if let Some(d) = own {
        let flatpak: String = paths::join(d.as_str(), "flatpak/exports/share");
        r.push(d);
        r.push(flatpak);
    }
    let ghost first: Seq<Seq<char>> = text::strs(r@);
    let mut system: Vec<String> = match xdg_data_dirs {
        Some(d) => filled_parts(d),
        None => {
            let mut v: Vec<String> = Vec::new();
            v.push("/usr/local/share".to_owned());
            v.push("/usr/share".to_owned());
            v.push("/var/lib/flatpak/exports/share".to_owned());
            v
        },
    };
    let ghost second: Seq<Seq<char>> = text::strs(system@);
    r.append(&mut system);
    proof {
        assert(text::strs(r@) =~= first + second);
        let want = data_dirs(
            text::opt_str(xdg_data_home),
            text::opt_str(home),
            text::opt_str(xdg_data_dirs),
        );
        assert(text::strs(r@) =~= want);
    }
    r
}

// ---------------------------------------------------------------------------
// Which icon an application has
// ---------------------------------------------------------------------------

/// A desktop file names its icon for the name of the file, for its window class and for the
/// name of the application, all in lower case, and for nothing else.
pub proof fn law_desktop_file_names_its_icon(
    m: Map<Seq<char>, Seq<char>>,
    stem: Seq<char>,
    icon: Seq<char>,
    class: Option<Seq<char>>,
    name: Option<Seq<char>>,
    key: Seq<char>,
)
    requires
        !m.dom().contains(key),
    ensures
        ({
            let n = with_entry(m, stem, Some(icon), class, name);
            &&& n.dom().contains(key) <==> key == text::lowercase(stem) || (class is Some && key == text::lowercase(
                class->0,
            )) || (name is Some && key == text::lowercase(name->0))
            &&& n.dom().contains(key) ==> n[key] == icon
        }),
        with_entry(m, stem, None, class, name) == m,
{
}

/// A desktop file is told by its ending, and its name is what stands before it.
pub proof fn law_desktop_file_is_told_by_its_ending(s: Seq<char>)
    ensures
        s.len() > 0 ==> stem_of(s + ".desktop"@) == Some(s),
        stem_of(".desktop"@) is None,
        stem_of(s) matches Some(t) ==> s == t + ".desktop"@ && t.len() > 0,
{
    let e = ".desktop"@;
    text::law_occurrence_is_between_front_and_rest(s, e, Seq::empty());
    assert((s + e).take((s + e).len() - e.len()) =~= s);
    if stem_of(s) is Some {
        text::law_text_is_made_of_what_it_holds(s, e, s.len() - e.len());
    }
}

/// The user's own data comes before that of the system. It lies where the environment says,
/// else in the home directory; what is installed for the user comes right behind it.
pub proof fn law_own_data_comes_first(data_home: Option<Seq<char>>, home: Option<Seq<char>>, dirs: Option<Seq<char>>)
    ensures
        ({
            let r = data_dirs(data_home, home, dirs);
            &&& data_home matches Some(d) ==> r.len() >= 2 && r[0] == d && r[1] == paths::joined(d, "flatpak/exports/share"@)
            &&& data_home is None && home is Some ==> r.len() >= 2 && r[0] == paths::joined(home->0, ".local/share"@) && r[1]
                == paths::joined(paths::joined(home->0, ".local/share"@), "flatpak/exports/share"@)
            &&& data_home is None && home is None && dirs is None ==> r == seq![
                "/usr/local/share"@,
                "/usr/share"@,
                "/var/lib/flatpak/exports/share"@,
            ]
            &&& data_home is Some && dirs is None ==> r.skip(2) == seq![
                "/usr/local/share"@,
                "/usr/share"@,
                "/var/lib/flatpak/exports/share"@,
            ]
            &&& data_home is Some && dirs is Some ==> r.skip(2) == text::parts_of(dirs->0, ':').filter(
                |s: Seq<char>| s.len() > 0,
            )
            &&& data_home is None && home is None && dirs is Some ==> r == text::parts_of(dirs->0, ':').filter(
                |s: Seq<char>| s.len() > 0,
            )
        }),
{
    let r = data_dirs(data_home, home, dirs);
    let usual = seq!["/usr/local/share"@, "/usr/share"@, "/var/lib/flatpak/exports/share"@];
    let f = |s: Seq<char>| s.len() > 0;
    assert(f =~= not_empty());
    if data_home is Some {
        if let Some(d) = dirs {
            assert(r.skip(2) =~= text::parts_of(d, ':').filter(f));
        } else {
            assert(r.skip(2) =~= usual);
        }
    } else if home is None {
        if let Some(d) = dirs {
            assert(r =~= text::parts_of(d, ':').filter(f));
        } else {
            assert(r =~= usual);
        }
    }
}

/// An index holds an icon under a name where its view does, and the same one.
pub proof fn law_index_holds_what_its_view_does(m: Map<Seq<char>, String>, name: Seq<char>)
    ensures
        icon_names(m).dom().contains(name) <==> m.dom().contains(name),
        m.dom().contains(name) ==> icon_names(m)[name] == m[name]@,
{
}

} // verus!
