use philes::actions::{ContextAction, Step};
use philes::app::{start_dir, update, Effect, Message, Philes, DOUBLE_CLICK_NANOS};
use philes::files::{Entry, Volume};

const MS: u64 = 1_000_000;

fn entry(name: &str, is_dir: bool) -> Entry {
    Entry { name: name.to_string(), path: format!("/home/me/{}", name), is_dir }
}

fn sample() -> Philes {
    let listing = vec![
        entry("b.txt", false),
        entry("Docs", true),
        entry(".secret", false),
        entry("a.txt", false),
        entry("Music", true),
    ];
    Philes::new("/home/me".to_string(), Vec::new(), Ok(listing), false)
}

fn selected(app: &Philes) -> Vec<usize> {
    let mut v: Vec<usize> = app.selected.iter().copied().collect();
    v.sort();
    v
}

#[test]
fn start_state() {
    let app = sample();
    assert_eq!(app.current_dir, "/home/me");
    let names: Vec<&str> = app.entries.iter().map(|e| e.name.as_str()).collect();
    assert_eq!(names, vec!["Docs", "Music", "a.txt", "b.txt"]);
    assert!(app.error.is_none());
    assert!(app.selected.is_empty());
    assert!(!app.context_menu.visible);
    assert!(app.clipboard.paths.is_empty());
}

#[test]
fn start_with_unreadable_home_shows_nothing() {
    let app = Philes::new("/x".to_string(), Vec::new(), Err("denied".to_string()), false);
    assert!(app.entries.is_empty());
    assert!(app.error.is_none());
}

#[test]
fn start_dir_defaults_to_root() {
    assert_eq!(start_dir(None), "/");
    assert_eq!(start_dir(Some("/home/me".to_string())), "/home/me");
}

#[test]
fn single_click_selects_one() {
    let mut app = sample();
    assert!(matches!(app.click(1, 0), Effect::Nothing));
    assert_eq!(selected(&app), vec![1]);
    assert!(matches!(app.click(3, 1000 * MS), Effect::Nothing));
    assert_eq!(selected(&app), vec![3]);
    assert_eq!(app.last_clicked, Some(3));
}

#[test]
fn shift_click_selects_range() {
    let mut app = sample();
    app.click(3, 0);
    update(&mut app, Message::ShiftChanged(true));
    app.click(1, 1000 * MS);
    assert_eq!(selected(&app), vec![1, 2, 3]);
    app.click(0, 2000 * MS);
    assert_eq!(selected(&app), vec![0, 1, 2, 3]);
}

#[test]
fn shift_click_without_anchor_adds_one() {
    let mut app = sample();
    app.shift_held = true;
    app.click(2, 0);
    assert_eq!(selected(&app), vec![2]);
}

#[test]
fn double_click_opens_folder_and_file() {
    let mut app = sample();
    app.click(0, 0);
    match app.click(0, 100 * MS) {
        Effect::Load(p) => assert_eq!(p, "/home/me/Docs"),
        _ => panic!("expected the folder to load"),
    }
    assert_eq!(selected(&app), vec![0]);
    app.click(2, 1000 * MS);
    match app.click(2, 1000 * MS + DOUBLE_CLICK_NANOS - 1) {
        Effect::OpenFile(p) => assert_eq!(p, "/home/me/a.txt"),
        _ => panic!("expected the file to open"),
    }
}

#[test]
fn slow_or_different_clicks_are_single() {
    let mut app = sample();
    app.click(0, 0);
    assert!(matches!(app.click(0, DOUBLE_CLICK_NANOS), Effect::Nothing));
    assert!(matches!(app.click(1, DOUBLE_CLICK_NANOS + MS), Effect::Nothing));
    assert!(!app.is_double_click(0, DOUBLE_CLICK_NANOS + 2 * MS));
    assert!(app.is_double_click(1, DOUBLE_CLICK_NANOS + 2 * MS));
}

#[test]
fn navigate_replaces_listing() {
    let mut app = sample();
    app.click(1, 0);
    app.right_click(Some(1));
    app.navigate("/home/me/Docs".to_string(), Ok(vec![entry("z", false), entry("y", true)]));
    assert_eq!(app.current_dir, "/home/me/Docs");
    assert_eq!(app.entries[0].name, "y");
    assert!(app.selected.is_empty());
    assert!(!app.context_menu.visible);
    assert!(app.error.is_none());
}

#[test]
fn failed_navigate_keeps_listing() {
    let mut app = sample();
    app.click(1, 0);
    app.navigate("/root".to_string(), Err("Permission denied".to_string()));
    assert_eq!(app.current_dir, "/home/me");
    assert_eq!(app.entries.len(), 4);
    assert_eq!(app.error, Some("Permission denied".to_string()));
    assert!(app.selected.is_empty());
}

#[test]
fn selected_paths_ascend_and_skip_missing() {
    let mut app = sample();
    app.selected.insert(3);
    app.selected.insert(0);
    app.selected.insert(42);
    assert_eq!(app.selected_paths(), vec!["/home/me/Docs".to_string(), "/home/me/b.txt".to_string()]);
}

#[test]
fn right_click_on_item() {
    let mut app = sample();
    app.click(0, 0);
    app.shift_held = true;
    app.click(2, 1000 * MS);
    app.right_click(Some(1));
    assert_eq!(selected(&app), vec![0, 1, 2]);
    assert!(app.context_menu.visible);
    assert_eq!(app.context_menu.targets.len(), 3);
    app.right_click(Some(3));
    assert_eq!(selected(&app), vec![3]);
    assert_eq!(app.context_menu.targets, vec!["/home/me/b.txt".to_string()]);
    assert_eq!(app.last_clicked, Some(3));
}

#[test]
fn right_click_on_background() {
    let mut app = sample();
    app.click(0, 0);
    app.right_click(None);
    assert!(app.selected.is_empty());
    assert_eq!(app.last_clicked, None);
    assert_eq!(app.context_menu.targets, vec!["/home/me".to_string()]);
}

#[test]
fn left_press_closes_menu_and_click_closes_menu() {
    let mut app = sample();
    app.right_click(None);
    update(&mut app, Message::LeftButtonPressed);
    assert!(!app.context_menu.visible);
    app.right_click(None);
    app.click(0, 0);
    assert!(!app.context_menu.visible);
}

#[test]
fn open_on_a_folder_navigates() {
    let mut app = sample();
    app.right_click(Some(0));
    match app.choose_action(ContextAction::Open, true) {
        Effect::Load(p) => assert_eq!(p, "/home/me/Docs"),
        _ => panic!("expected the folder to load"),
    }
    assert!(!app.context_menu.visible);
}

#[test]
fn copy_then_paste_refreshes() {
    let mut app = sample();
    app.right_click(Some(2));
    assert!(matches!(app.choose_action(ContextAction::Copy, false), Effect::Nothing));
    assert_eq!(app.clipboard.paths, vec!["/home/me/a.txt".to_string()]);
    app.right_click(None);
    let job = match app.choose_action(ContextAction::Paste, true) {
        Effect::Run(job) => job,
        _ => panic!("expected a job"),
    };
    assert!(matches!(&job.steps[0], Step::PasteInto { name, .. } if name == "a.txt"));
    match app.finish_job(job, None) {
        Effect::Load(p) => assert_eq!(p, "/home/me"),
        _ => panic!("expected a refresh"),
    }
    assert_eq!(app.clipboard.paths.len(), 1);
}

#[test]
fn cut_refreshes_at_once() {
    let mut app = sample();
    app.right_click(Some(2));
    match app.choose_action(ContextAction::Cut, false) {
        Effect::Load(p) => assert_eq!(p, "/home/me"),
        _ => panic!("expected a refresh"),
    }
    assert!(app.clipboard.is_cut);
}

#[test]
fn empty_paste_reports_error() {
    let mut app = sample();
    app.right_click(None);
    assert!(matches!(app.choose_action(ContextAction::Paste, false), Effect::Nothing));
    assert_eq!(app.error, Some("Clipboard is empty".to_string()));
}

#[test]
fn failed_job_reports_error_without_refresh() {
    let mut app = sample();
    app.right_click(Some(3));
    let job = match app.choose_action(ContextAction::Delete, false) {
        Effect::Run(job) => job,
        _ => panic!("expected a job"),
    };
    let message = job.steps[0].failure_message("denied");
    assert!(matches!(app.finish_job(job, message), Effect::Nothing));
    assert_eq!(app.error, Some("Delete failed for Some(\"b.txt\"): denied".to_string()));
}

#[test]
fn up_loads_parent() {
    let app = sample();
    match app.go_up() {
        Effect::Load(p) => assert_eq!(p, "/home"),
        _ => panic!("expected the parent"),
    }
    let root = Philes::new("/".to_string(), Vec::new(), Ok(Vec::new()), false);
    assert!(matches!(root.go_up(), Effect::Nothing));
}

#[test]
fn address_bar_editing() {
    let mut app = sample();
    assert!(matches!(update(&mut app, Message::AddressClicked { now: 0 }), Effect::Nothing));
    assert!(!app.address_editing);
    assert!(matches!(
        update(&mut app, Message::AddressClicked { now: 100 * MS }),
        Effect::FocusAddressBar
    ));
    assert!(app.address_editing);
    assert_eq!(app.address_input, "/home/me");
    update(&mut app, Message::AddressInput("/nope".to_string()));
    assert!(matches!(update(&mut app, Message::AddressSubmit { is_dir: false }), Effect::Nothing));
    assert!(!app.address_editing);
    assert_eq!(app.error, Some("Not a directory: /nope".to_string()));
    update(&mut app, Message::AddressInput("/tmp".to_string()));
    match update(&mut app, Message::AddressSubmit { is_dir: true }) {
        Effect::Load(p) => assert_eq!(p, "/tmp"),
        _ => panic!("expected the typed directory to load"),
    }
    app.address_editing = true;
    update(&mut app, Message::AddressCancel);
    assert!(!app.address_editing);
}

#[test]
fn update_dispatches() {
    let mut app = sample();
    match update(&mut app, Message::NavigateTo("/tmp".to_string())) {
        Effect::Load(p) => assert_eq!(p, "/tmp"),
        _ => panic!("expected a load"),
    }
    update(&mut app, Message::Click { index: 1, now: 0 });
    assert_eq!(selected(&app), vec![1]);
    update(&mut app, Message::RightClick(None));
    assert!(app.context_menu.visible);
    assert!(matches!(update(&mut app, Message::GoUp), Effect::Load(_)));
    update(&mut app, Message::ContextAction { action: ContextAction::Copy, first_target_is_dir: true });
    assert_eq!(app.clipboard.paths, vec!["/home/me".to_string()]);
}

#[test]
fn volumes_are_kept() {
    let vols = vec![Volume { label: "Home".to_string(), path: "/home/me".to_string() }];
    let app = Philes::new("/home/me".to_string(), vols, Ok(Vec::new()), true);
    assert_eq!(app.volumes.len(), 1);
    assert!(app.pickers);
}

#[test]
fn shift_click_after_navigation_reaches_past_listing() {
    let mut app = sample();
    app.click(3, 0);
    app.navigate("/home/me/Docs".to_string(), Ok(vec![entry("only", false)]));
    app.shift_held = true;
    app.click(0, 1000 * MS);
    assert_eq!(selected(&app), vec![0, 1, 2, 3]);
    assert_eq!(app.selected_paths(), vec!["/home/me/only".to_string()]);
}

#[test]
fn up_then_read_shows_parent() {
    let mut app = sample();
    app.click(0, 0);
    let parent = match update(&mut app, Message::GoUp) {
        Effect::Load(p) => p,
        _ => panic!("expected the parent"),
    };
    app.navigate(parent, Ok(vec![entry("me", true)]));
    assert_eq!(app.current_dir, "/home");
    assert!(app.selected.is_empty());
}
