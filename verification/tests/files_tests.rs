use philes::decimal::decimal_string;
use philes::files::{
    ancestor_paths, arrange_entries, get_volumes, load_entries, mount_volumes, place_folders,
    text_less, truncate, Entry, Volume,
};

fn entry(name: &str, is_dir: bool) -> Entry {
    Entry { name: name.to_string(), path: format!("/d/{}", name), is_dir }
}

fn names(entries: &[Entry]) -> Vec<String> {
    entries.iter().map(|e| e.name.clone()).collect()
}

#[test]
fn truncate_keeps_short_names() {
    assert_eq!(truncate("notes.txt", 14), "notes.txt");
    assert_eq!(truncate("exactly14chars", 14), "exactly14chars");
    assert_eq!(truncate("", 0), "");
}

#[test]
fn truncate_shortens_long_names() {
    assert_eq!(truncate("a_very_long_file_name.txt", 14), "a_very_long_f\u{2026}");
    assert_eq!(truncate("a_very_long_file_name.txt", 14).chars().count(), 14);
    assert_eq!(truncate("abc", 1), "\u{2026}");
    assert_eq!(truncate("ééééé", 3), "éé\u{2026}");
}

#[test]
fn ancestors_of_absolute_path() {
    assert_eq!(
        ancestor_paths(&"/home/me/docs".to_string()),
        vec!["/".to_string(), "/home".to_string(), "/home/me".to_string(), "/home/me/docs".to_string()]
    );
    assert_eq!(ancestor_paths(&"/".to_string()), vec!["/".to_string()]);
}

#[test]
fn ancestors_of_relative_path() {
    assert_eq!(ancestor_paths(&"a/b".to_string()), vec!["".to_string(), "a".to_string(), "a/b".to_string()]);
}

#[test]
fn listing_hides_dotfiles_and_sorts_folders_first() {
    let listing = vec![
        entry("zeta.txt", false),
        entry(".hidden", false),
        entry("Beta", true),
        entry("alpha.txt", false),
        entry(".config", true),
        entry("Alpha", true),
    ];
    let shown = arrange_entries(listing);
    assert_eq!(names(&shown), vec!["Alpha", "Beta", "alpha.txt", "zeta.txt"]);
    assert!(shown[0].is_dir && shown[1].is_dir && !shown[2].is_dir);
}

#[test]
fn listing_orders_names_by_character() {
    let listing = vec![entry("b", false), entry("ab", false), entry("a", false), entry("é", false), entry("Z", false)];
    assert_eq!(names(&arrange_entries(listing)), vec!["Z", "a", "ab", "b", "é"]);
}

#[test]
fn listing_keeps_order_of_ties() {
    let first = Entry { name: "same".to_string(), path: "/one/same".to_string(), is_dir: false };
    let second = Entry { name: "same".to_string(), path: "/two/same".to_string(), is_dir: false };
    let shown = arrange_entries(vec![first, second]);
    assert_eq!(shown[0].path, "/one/same");
    assert_eq!(shown[1].path, "/two/same");
}

#[test]
fn load_entries_passes_errors() {
    let loaded = load_entries(Err("Permission denied".to_string()));
    assert_eq!(loaded.err(), Some("Permission denied".to_string()));
    let loaded = load_entries(Ok(vec![entry(".x", false), entry("y", false)])).unwrap();
    assert_eq!(names(&loaded), vec!["y"]);
}

#[test]
fn text_order() {
    assert!(text_less("a", "b"));
    assert!(text_less("a", "ab"));
    assert!(!text_less("ab", "a"));
    assert!(!text_less("same", "same"));
    assert!(text_less("Z", "a"));
}

#[test]
fn volumes_in_order() {
    let places = vec![Volume { label: "Desktop".to_string(), path: "/h/Desktop".to_string() }];
    let devices = vec![Volume { label: "usb".to_string(), path: "/media/usb".to_string() }];
    let vols = get_volumes(Some("/h".to_string()), places, devices);
    let labels: Vec<&str> = vols.iter().map(|v| v.label.as_str()).collect();
    assert_eq!(labels, vec!["Home", "Desktop", "/ (root)", "usb"]);
    assert_eq!(vols[0].path, "/h");
    assert_eq!(vols[2].path, "/");
    let vols = get_volumes(None, Vec::new(), Vec::new());
    assert_eq!(vols.len(), 1);
    assert_eq!(vols[0].label, "/ (root)");
}

#[test]
fn mounted_drive_volumes() {
    let found = vec![("me".to_string(), "/media/usb/me".to_string())];
    let vols = mount_volumes("usb".to_string(), "/media/usb".to_string(), Some(found));
    assert_eq!(vols.len(), 1);
    assert_eq!(vols[0].label, "usb/me");
    assert_eq!(vols[0].path, "/media/usb/me");
    let vols = mount_volumes("usb".to_string(), "/media/usb".to_string(), Some(Vec::new()));
    assert_eq!(vols[0].label, "usb");
    let vols = mount_volumes("usb".to_string(), "/media/usb".to_string(), None);
    assert_eq!(vols[0].path, "/media/usb");
}

#[test]
fn place_folder_list() {
    assert_eq!(place_folders(), vec!["Desktop", "Documents", "Downloads", "Music", "Pictures", "Videos"]);
}

#[test]
fn decimal_numbers() {
    assert_eq!(decimal_string(0), "0");
    assert_eq!(decimal_string(7), "7");
    assert_eq!(decimal_string(10), "10");
    assert_eq!(decimal_string(4096), "4096");
    assert_eq!(decimal_string(usize::MAX), usize::MAX.to_string());
}
