use niri_bar::desktop::{add_desktop_entry, desktop_stem, get_data_dirs, index_desktop_file, DesktopFields};
use niri_bar::icon::{
    app_icon_size, app_icon_sources, crop_of, find_non_transparent_bbox, fit, glyph_max,
    icon_file_candidates, icon_sources, match_app_id_to_icon, pixmap_to_pixbuf, read_size,
    resolve_icon_path_or_name, sanitize_icon_name, tray_icon_files, tray_icon_sources, uses_theme_icon,
    Fit, IconCache, IconSource, PixelImage, RawIconPixmap, MAX_CACHE,
};
use niri_bar::names::NameMap;

fn picture(width: i32, height: i32, pixels: Vec<u8>) -> PixelImage {
    PixelImage { width, height, has_alpha: true, n_channels: 4, rowstride: width as u32 * 4, pixels }
}

fn theme(s: &str) -> IconSource {
    IconSource::Theme(s.to_string())
}

#[test]
fn test_sanitize_icon_name() {
    assert_eq!(sanitize_icon_name("firefox"), Some("firefox".to_string()));
    assert_eq!(sanitize_icon_name(""), None);
    assert_eq!(sanitize_icon_name("/etc/passwd"), None);
    assert_eq!(sanitize_icon_name("../x"), None);
    assert_eq!(sanitize_icon_name("a/b"), None);
    assert_eq!(sanitize_icon_name(&"x".repeat(200)), None);
}

#[test]
fn test_pixmap_rejects_oversize() {
    let huge = RawIconPixmap {
        width: 99999,
        height: 99999,
        pixels: vec![0; 16],
    };
    assert!(pixmap_to_pixbuf(&[huge]).is_none());
    let mismatch = RawIconPixmap {
        width: 2,
        height: 2,
        pixels: vec![0; 4],
    };
    assert!(pixmap_to_pixbuf(&[mismatch]).is_none());
}

#[test]
fn test_pixmap_to_pixbuf_conversion() {
    let raw = RawIconPixmap {
        width: 2,
        height: 2,
        // ARGB32 format: A=255, R=100, G=150, B=200
        pixels: vec![
            255, 100, 150, 200, 255, 100, 150, 200, 255, 100, 150, 200, 255, 100, 150, 200,
        ],
    };
    let pb = pixmap_to_pixbuf(&[raw]);
    assert!(pb.is_some());
    let pb = pb.unwrap();
    assert_eq!(pb.width, 2);
    assert_eq!(pb.height, 2);
}

#[test]
fn test_find_non_transparent_bbox() {
    let pb = picture(10, 10, vec![0; 400]);
    let (min_x, min_y, max_x, max_y) = find_non_transparent_bbox(&pb);
    assert_eq!((min_x, min_y, max_x, max_y), (0, 0, 9, 9));
}

#[test]
fn test_match_app_id_direct() {
    let mut entries = NameMap::new();
    entries.insert("firefox".to_string(), "firefox-browser".to_string());
    entries.insert("kitty".to_string(), "kitty".to_string());

    let res = match_app_id_to_icon("firefox", &entries, &Vec::new());
    assert_eq!(res, Some("firefox-browser".to_string()));

    let res_case = match_app_id_to_icon("Firefox", &entries, &Vec::new());
    assert_eq!(res_case, Some("firefox-browser".to_string()));
}

#[test]
fn test_match_app_id_reverse_dns() {
    let mut entries = NameMap::new();
    entries.insert("firefox".to_string(), "firefox-browser".to_string());
    entries.insert("studio".to_string(), "com.obsproject.Studio".to_string());

    let res = match_app_id_to_icon("org.mozilla.firefox", &entries, &Vec::new());
    assert_eq!(res, Some("firefox-browser".to_string()));

    let res_obs = match_app_id_to_icon("com.obsproject.Studio", &entries, &Vec::new());
    assert_eq!(res_obs, Some("com.obsproject.Studio".to_string()));
}

#[test]
fn test_match_app_id_fallback_when_not_in_entries() {
    let entries = NameMap::new();
    let res = match_app_id_to_icon("alacritty", &entries, &Vec::new());
    assert_eq!(res, Some("alacritty".to_string()));
}

#[test]
fn test_resolve_icon_path_or_name() {
    let named = resolve_icon_path_or_name("utilities-terminal", &Vec::new());
    assert_eq!(named, Some("utilities-terminal".to_string()));
}

#[test]
fn the_largest_icon_is_taken_and_its_bytes_are_turned() {
    let small = RawIconPixmap { width: 1, height: 1, pixels: vec![9, 9, 9, 9] };
    let large = RawIconPixmap { width: 2, height: 1, pixels: vec![1, 2, 3, 4, 5, 6, 7, 8] };
    let pb = pixmap_to_pixbuf(&[large.clone(), small]).unwrap();
    assert_eq!((pb.width, pb.height, pb.rowstride), (2, 1, 8));
    assert_eq!(pb.pixels, vec![2, 3, 4, 1, 6, 7, 8, 5]);
    let other = RawIconPixmap { width: 1, height: 2, pixels: vec![8; 8] };
    assert_eq!(pixmap_to_pixbuf(&[large, other]).unwrap().height, 2);
    assert_eq!(pixmap_to_pixbuf(&[]), None);
}

#[test]
fn the_box_of_a_picture_holds_its_pixels() {
    let mut pixels = vec![0u8; 4 * 3 * 4];
    pixels[(1 * 4 + 2) * 4 + 3] = 255;
    pixels[(2 * 4 + 1) * 4 + 3] = 255;
    let p = picture(4, 3, pixels);
    assert_eq!(find_non_transparent_bbox(&p), (1, 1, 2, 2));
    assert_eq!(crop_of(&p), (1, 1, 2, 2));
    assert_eq!(crop_of(&picture(4, 3, vec![0; 48])), (0, 0, 4, 3));
}

#[test]
fn pictures_are_fitted_into_the_middle() {
    assert_eq!(glyph_max(22), 20);
    assert_eq!(glyph_max(15), 15);
    assert_eq!(fit(48, 48, 22, 20), Fit { x: 1, y: 1, width: 20, height: 20 });
    assert_eq!(fit(40, 20, 22, 10), Fit { x: 1, y: 6, width: 20, height: 10 });
    assert_eq!(fit(1, 400, 10, 0), Fit { x: 4, y: 0, width: 1, height: 10 });
}

#[test]
fn sizes_have_defaults_and_a_limit() {
    assert_eq!((app_icon_size(0), app_icon_size(24)), (32, 24));
    assert_eq!((read_size(-1), read_size(40), read_size(4000)), (32, 40, 512));
}

#[test]
fn an_icon_is_looked_for_in_files_first() {
    assert_eq!(
        icon_file_candidates("x"),
        vec![
            "/usr/local/share/pixmaps/x.png",
            "/usr/local/share/pixmaps/x.svg",
            "/usr/local/share/pixmaps/x.xpm",
            "/usr/share/pixmaps/x.png",
            "/usr/share/pixmaps/x.svg",
            "/usr/share/pixmaps/x.xpm"
        ]
    );
    let existing = vec!["/usr/share/pixmaps/x.xpm".to_string(), "/usr/share/pixmaps/x.svg".to_string()];
    assert_eq!(resolve_icon_path_or_name("x", &existing).as_deref(), Some("/usr/share/pixmaps/x.svg"));
    assert_eq!(icon_file_candidates("/a/b.png")[0], "/a/b.png");
}

#[test]
fn the_cache_forgets_when_it_is_full() {
    let mut cache = IconCache::new();
    for i in 0..MAX_CACHE {
        cache.store(&format!("app{i}"), None);
    }
    cache.store("last", Some("icon".into()));
    assert_eq!(cache.lookup("app0"), None);
    assert_eq!(cache.lookup("last"), Some(&Some("icon".to_string())));
}

#[test]
fn sources_stand_in_order() {
    assert_eq!(icon_sources("/a.png", &None), vec![IconSource::File("/a.png".into())]);
    assert_eq!(icon_sources("a/b", &Some("/x.png".into())), vec![]);
    assert_eq!(
        icon_sources("Foo", &Some("bar".into())),
        vec![theme("bar"), theme("Foo"), theme("foo"), theme("application-x-executable")]
    );
    assert_eq!(
        app_icon_sources("Foo", &Some("/x.png".into())),
        vec![
            IconSource::File("/x.png".into()),
            theme("/x.png"),
            theme("Foo"),
            theme("foo"),
            IconSource::Named("Foo".into())
        ]
    );
}

#[test]
fn the_icon_of_an_item_is_looked_for_in_its_directory() {
    let files = tray_icon_files("/d", "n");
    assert_eq!(files.len(), 42);
    assert_eq!(files[0], "/d/n");
    assert_eq!(files[1], "/d/hicolor/scalable/apps/n");
    assert_eq!(files[7], "/d/n.png");
    assert_eq!(files[41], "/d/hicolor/16x16/apps/n.tga");
    let sources = tray_icon_sources(&Some("n".into()), true, &Some("/d".into()), "Id");
    assert_eq!(sources.len(), 46);
    assert_eq!(sources[0], IconSource::Pixels);
    assert_eq!(sources[1], IconSource::File("/d/n".into()));
    assert_eq!(sources[43], IconSource::Named("n".into()));
    assert_eq!(sources[44], IconSource::Named("Id".into()));
    assert_eq!(sources[45], IconSource::Named("id".into()));
    assert!(uses_theme_icon(&Some("n".into()), false, &None, true));
    assert!(!uses_theme_icon(&Some("n".into()), true, &None, true));
    assert!(!uses_theme_icon(&Some("/n".into()), false, &None, true));
}

#[test]
fn desktop_files_give_icons_by_three_names() {
    let mut m: NameMap<String> = NameMap::new();
    let text = "[Desktop Entry]\nType=Application\nName=My Tool\nIcon=tool-icon\nStartupWMClass=ToolClass\nExec=tool\n";
    index_desktop_file(&mut m, "/usr/share/applications", "org.x.Tool.desktop", text);
    assert_eq!(m.get("org.x.tool").map(|s| s.as_str()), Some("tool-icon"));
    assert_eq!(m.get("toolclass").map(|s| s.as_str()), Some("tool-icon"));
    assert_eq!(m.get("my tool").map(|s| s.as_str()), Some("tool-icon"));
    index_desktop_file(&mut m, "/usr/share/applications", "readme.txt", text);
    assert_eq!(m.len(), 3);
}

#[test]
fn a_desktop_file_with_a_message_domain_keeps_its_own_name() {
    let mut m: NameMap<String> = NameMap::new();
    let text = "[Desktop Entry]\nType=Application\nName=My\0Tool\nIcon=tool-icon\nX-Ubuntu-Gettext-Domain=tool\n";
    index_desktop_file(&mut m, "/usr/share/applications", "tool.desktop", text);
    assert_eq!(m.get("tool").map(|s| s.as_str()), Some("tool-icon"));
    assert_eq!(m.get("my\0tool").map(|s| s.as_str()), Some("tool-icon"));
}

#[test]
fn the_first_icon_of_a_name_stays() {
    let mut m: NameMap<String> = NameMap::new();
    let first = DesktopFields { icon: Some("one".into()), startup_wm_class: None, name: None };
    let second = DesktopFields { icon: Some("two".into()), startup_wm_class: Some("Other".into()), name: None };
    add_desktop_entry(&mut m, "App", &first);
    add_desktop_entry(&mut m, "app", &second);
    assert_eq!(m.get("app").map(|s| s.as_str()), Some("one"));
    assert_eq!(m.get("other").map(|s| s.as_str()), Some("two"));
}

#[test]
fn stems_are_names_of_desktop_files() {
    assert_eq!(desktop_stem("a.b.desktop").as_deref(), Some("a.b"));
    assert_eq!(desktop_stem(".desktop"), None);
    assert_eq!(desktop_stem("a.txt"), None);
}

#[test]
fn data_directories_follow_the_environment() {
    assert_eq!(
        get_data_dirs(None, Some("/h"), None),
        vec![
            "/h/.local/share",
            "/h/.local/share/flatpak/exports/share",
            "/usr/local/share",
            "/usr/share",
            "/var/lib/flatpak/exports/share"
        ]
    );
    assert_eq!(
        get_data_dirs(Some("/d"), Some("/h"), Some("/a::/b")),
        vec!["/d", "/d/flatpak/exports/share", "/a", "/b"]
    );
}
