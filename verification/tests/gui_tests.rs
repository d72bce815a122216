use philes::actions::ContextAction;
use philes::app::Philes;
use philes::files::{Entry, Volume};
use philes::gui::{
    address_bar, context_menu_overlay, file_grid, same_text, sidebar, sidebar_icon, status_text,
    view, AddressBar, SidebarItem,
};

fn entry(name: &str, is_dir: bool) -> Entry {
    Entry { name: name.to_string(), path: format!("/home/me/{}", name), is_dir }
}

fn sample(n: usize) -> Philes {
    let listing = (0..n).map(|i| entry(&format!("file{:02}_with_a_long_name", i), false)).collect();
    Philes::new("/home/me".to_string(), Vec::new(), Ok(listing), false)
}

#[test]
fn sidebar_icons() {
    assert_eq!(sidebar_icon("Home"), "[~]");
    assert_eq!(sidebar_icon("Documents"), "[Doc]");
    assert_eq!(sidebar_icon("/ (root)"), "[/]");
    assert_eq!(sidebar_icon("usb"), "[Drive]");
    assert_eq!(sidebar_icon("home"), "[Drive]");
}

#[test]
fn text_equality() {
    assert!(same_text("abc", "abc"));
    assert!(!same_text("abc", "abd"));
    assert!(!same_text("abc", "ab"));
}

#[test]
fn status_line() {
    let mut app = sample(3);
    assert_eq!(status_text(&app), "3 items");
    app.click(0, 0);
    assert_eq!(status_text(&app), "1 selected");
}

#[test]
fn sidebar_lines() {
    let vols: Vec<Volume> = (0..8)
        .map(|i| Volume { label: format!("v{}", i), path: if i == 1 { "/home/me".to_string() } else { format!("/v{}", i) } })
        .collect();
    let app = Philes::new("/home/me".to_string(), vols, Ok(Vec::new()), false);
    let lines = sidebar(&app);
    assert_eq!(lines.len(), 1 + 8 + 2);
    assert!(matches!(lines[0], SidebarItem::Heading("PLACES")));
    assert!(matches!(lines[2], SidebarItem::Place { index: 1, active: true }));
    assert!(matches!(lines[1], SidebarItem::Place { index: 0, active: false }));
    assert!(matches!(lines[8], SidebarItem::Gap));
    assert!(matches!(lines[9], SidebarItem::Heading("DEVICES")));
    assert!(matches!(lines[10], SidebarItem::Place { index: 7, .. }));
}

#[test]
fn breadcrumbs() {
    let mut app = sample(0);
    match address_bar(&app) {
        AddressBar::Crumbs(crumbs) => {
            let labels: Vec<&str> = crumbs.iter().map(|c| c.label.as_str()).collect();
            assert_eq!(labels, vec!["/", "home", "me"]);
            assert_eq!(crumbs[1].path, "/home");
            assert!(crumbs[2].is_last && !crumbs[1].is_last);
        }
        AddressBar::Editing(_) => panic!("expected crumbs"),
    }
    app.address_editing = true;
    app.address_input = "/typed".to_string();
    assert!(matches!(address_bar(&app), AddressBar::Editing(t) if t == "/typed"));
}

#[test]
fn grid_rows() {
    let mut app = sample(7);
    app.click(4, 0);
    let rows = file_grid(&app, 3);
    assert_eq!(rows.len(), 3);
    assert_eq!(rows[0].cells.len(), 3);
    assert_eq!(rows[0].fillers, 0);
    assert_eq!(rows[2].cells.len(), 1);
    assert_eq!(rows[2].fillers, 2);
    assert_eq!(rows[1].cells[1].index, 4);
    assert!(rows[1].cells[1].selected);
    assert!(!rows[1].cells[0].selected);
    assert_eq!(rows[0].cells[0].label, "file00_with_a\u{2026}");
    let rows = file_grid(&app, 7);
    assert_eq!(rows.len(), 1);
    assert_eq!(rows[0].fillers, 0);
    assert!(file_grid(&sample(0), 4).is_empty());
}

#[test]
fn menu_layouts() {
    let mut app = sample(3);
    assert!(context_menu_overlay(&app).is_none());
    app.right_click(None);
    let menu = context_menu_overlay(&app).unwrap();
    assert_eq!(menu.actions, vec![ContextAction::NewFolder, ContextAction::Paste]);
    assert_eq!(menu.separator_after, None);
    app.right_click(Some(1));
    let menu = context_menu_overlay(&app).unwrap();
    assert_eq!(menu.actions.len(), 6);
    assert_eq!(menu.separator_after, Some(1));
}

#[test]
fn whole_view() {
    let mut app = sample(5);
    app.error = Some("oops".to_string());
    let screen = view(&app, 2);
    assert_eq!(screen.status, "5 items");
    assert_eq!(screen.grid.len(), 3);
    assert_eq!(screen.error_line, Some("[ERROR] oops".to_string()));
    assert!(screen.menu.is_none());
    assert_eq!(screen.sidebar.len(), 1);
}

#[test]
fn paths_compare_by_components() {
    assert!(philes::gui::is_same_path("/a/", "/a"));
    assert!(philes::gui::is_same_path("//", "/"));
    assert!(!philes::gui::is_same_path("/a", "/b"));
    let vols = vec![Volume { label: "Home".to_string(), path: "/home/me".to_string() }];
    let app = Philes::new("/home/me/".to_string(), vols, Ok(Vec::new()), false);
    assert!(matches!(sidebar(&app)[1], SidebarItem::Place { index: 0, active: true }));
}

#[test]
fn double_slash_crumb_is_root() {
    let app = Philes::new("//".to_string(), Vec::new(), Ok(Vec::new()), false);
    match address_bar(&app) {
        AddressBar::Crumbs(crumbs) => {
            assert_eq!(crumbs.len(), 1);
            assert_eq!(crumbs[0].label, "/");
        }
        AddressBar::Editing(_) => panic!("expected crumbs"),
    }
}

#[test]
fn background_menu_by_path_equality() {
    let mut app = Philes::new("/home/me/".to_string(), Vec::new(), Ok(Vec::new()), false);
    app.context_menu = philes::actions::ContextMenu::open(vec!["/home/me".to_string()]);
    let menu = context_menu_overlay(&app).unwrap();
    assert_eq!(menu.actions, vec![ContextAction::NewFolder, ContextAction::Paste]);
}
