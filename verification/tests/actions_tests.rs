use philes::actions::{
    execute, finish, new_folder_name, search_folder_name, Clipboard, ContextAction, ContextMenu,
    FolderSearch, Step,
};

fn strings(items: &[&str]) -> Vec<String> {
    items.iter().map(|s| s.to_string()).collect()
}

#[test]
fn labels_and_icons() {
    assert_eq!(ContextAction::Open.label(), "Open");
    assert_eq!(ContextAction::OpenWith.label(), "Open With...");
    assert_eq!(ContextAction::Send.label(), "Send To...");
    assert_eq!(ContextAction::NewFolder.label(), "New Folder");
    assert_eq!(ContextAction::Copy.icon(), "[C]");
    assert_eq!(ContextAction::Delete.icon(), "DEL");
    assert_eq!(ContextAction::NewFolder.icon(), "+DIR");
}

#[test]
fn labels_are_distinct() {
    let all = [
        ContextAction::Open,
        ContextAction::OpenWith,
        ContextAction::Copy,
        ContextAction::Cut,
        ContextAction::Delete,
        ContextAction::Send,
        ContextAction::Paste,
        ContextAction::NewFolder,
    ];
    for a in all.iter() {
        for b in all.iter() {
            assert_eq!(a.label() == b.label(), a == b);
        }
    }
}

#[test]
fn menus_list_their_actions() {
    assert_eq!(
        ContextAction::item_actions(),
        vec![
            ContextAction::Open,
            ContextAction::OpenWith,
            ContextAction::Copy,
            ContextAction::Cut,
            ContextAction::Delete,
            ContextAction::Send,
        ]
    );
    assert_eq!(
        ContextAction::background_actions(),
        vec![ContextAction::NewFolder, ContextAction::Paste]
    );
    for a in ContextAction::background_actions() {
        assert!(!ContextAction::item_actions().contains(&a));
    }
}

#[test]
fn menu_open_and_close() {
    let menu = ContextMenu::open(strings(&["/a"]));
    assert!(menu.visible);
    assert_eq!(menu.targets, strings(&["/a"]));
    let closed = ContextMenu::close();
    assert!(!closed.visible);
    assert!(closed.targets.is_empty());
    let default = ContextMenu::default();
    assert!(!default.visible && default.targets.is_empty());
}

#[test]
fn copy_fills_clipboard() {
    let mut clip = Clipboard::default();
    let job = execute(&ContextAction::Copy, &strings(&["/a/x", "/a/y"]), &mut clip, false);
    assert!(job.steps.is_empty());
    assert!(job.error.is_none());
    assert_eq!(clip.paths, strings(&["/a/x", "/a/y"]));
    assert!(!clip.is_cut);
}

#[test]
fn cut_then_paste_moves_and_empties_clipboard() {
    let mut clip = Clipboard::default();
    execute(&ContextAction::Cut, &strings(&["/a/x.txt", "/a/dir"]), &mut clip, false);
    assert!(clip.is_cut);
    let job = execute(&ContextAction::Paste, &strings(&["/b"]), &mut clip, false);
    assert!(job.clears_clipboard);
    assert_eq!(job.steps.len(), 2);
    match &job.steps[0] {
        Step::PasteInto { source, dest_dir, name, moving } => {
            assert_eq!(source, "/a/x.txt");
            assert_eq!(dest_dir, "/b");
            assert_eq!(name, "x.txt");
            assert!(*moving);
        }
        _ => panic!("expected a paste step"),
    }
    let error = finish(&job, None, &mut clip);
    assert!(error.is_none());
    assert!(clip.paths.is_empty());
    assert!(clip.is_cut);
}

#[test]
fn failed_paste_keeps_clipboard() {
    let mut clip = Clipboard::default();
    execute(&ContextAction::Cut, &strings(&["/a/x.txt"]), &mut clip, false);
    let job = execute(&ContextAction::Paste, &strings(&["/b"]), &mut clip, false);
    let message = job.steps[0].failure_message("boom").unwrap();
    assert_eq!(message, "Paste failed for \"x.txt\": boom");
    let error = finish(&job, Some(message.clone()), &mut clip);
    assert_eq!(error, Some(message));
    assert_eq!(clip.paths, strings(&["/a/x.txt"]));
}

#[test]
fn copy_paste_keeps_clipboard() {
    let mut clip = Clipboard::default();
    execute(&ContextAction::Copy, &strings(&["/a/x.txt"]), &mut clip, false);
    let job = execute(&ContextAction::Paste, &strings(&["/b"]), &mut clip, false);
    assert!(!job.clears_clipboard);
    match &job.steps[0] {
        Step::PasteInto { moving, .. } => assert!(!*moving),
        _ => panic!("expected a paste step"),
    }
    assert!(finish(&job, None, &mut clip).is_none());
    assert_eq!(clip.paths, strings(&["/a/x.txt"]));
}

#[test]
fn paste_with_empty_clipboard_fails() {
    let mut clip = Clipboard::default();
    let job = execute(&ContextAction::Paste, &strings(&["/b"]), &mut clip, false);
    assert!(job.steps.is_empty());
    assert_eq!(finish(&job, None, &mut clip), Some("Clipboard is empty".to_string()));
}

#[test]
fn paste_without_target_does_nothing() {
    let mut clip = Clipboard::default();
    execute(&ContextAction::Cut, &strings(&["/a/x"]), &mut clip, false);
    let job = execute(&ContextAction::Paste, &Vec::new(), &mut clip, false);
    assert!(job.steps.is_empty());
    assert!(finish(&job, None, &mut clip).is_none());
    assert_eq!(clip.paths, strings(&["/a/x"]));
}

#[test]
fn paste_skips_paths_without_a_name() {
    let mut clip = Clipboard::default();
    execute(&ContextAction::Copy, &strings(&["/", "/a/x"]), &mut clip, false);
    let job = execute(&ContextAction::Paste, &strings(&["/b"]), &mut clip, false);
    assert_eq!(job.steps.len(), 1);
}

#[test]
fn open_and_delete_plan_one_step_per_target() {
    let mut clip = Clipboard::default();
    let job = execute(&ContextAction::Open, &strings(&["/a/x", "/a/y"]), &mut clip, true);
    assert_eq!(job.steps.len(), 2);
    assert!(matches!(&job.steps[1], Step::Open(p) if p == "/a/y"));
    let job = execute(&ContextAction::Delete, &strings(&["/a/x"]), &mut clip, true);
    assert!(matches!(&job.steps[0], Step::Remove(p) if p == "/a/x"));
    assert_eq!(
        job.steps[0].failure_message("denied"),
        Some("Delete failed for Some(\"x\"): denied".to_string())
    );
}

#[test]
fn open_failure_message_names_the_file() {
    let step = Step::Open("/a/x.txt".to_string());
    assert_eq!(
        step.failure_message("no app"),
        Some("Could not open Some(\"x.txt\"): no app".to_string())
    );
    let root = Step::Open("/".to_string());
    assert_eq!(root.failure_message("e"), Some("Could not open None: e".to_string()));
}

#[test]
fn open_with_and_send_depend_on_pickers() {
    let mut clip = Clipboard::default();
    let targets = strings(&["/a/x"]);
    let job = execute(&ContextAction::OpenWith, &targets, &mut clip, true);
    assert!(matches!(&job.steps[0], Step::ChooseApplication(t) if *t == targets));
    assert_eq!(
        job.steps[0].failure_message("x"),
        Some("Failed to launch app picker: x".to_string())
    );
    let job = execute(&ContextAction::OpenWith, &targets, &mut clip, false);
    assert!(matches!(&job.steps[0], Step::Open(p) if p == "/a/x"));
    let job = execute(&ContextAction::Send, &targets, &mut clip, true);
    assert!(matches!(&job.steps[0], Step::ChooseDestination(t) if *t == targets));
    assert_eq!(
        job.steps[0].failure_message("x"),
        Some("Failed to open destination picker: x".to_string())
    );
    let job = execute(&ContextAction::Send, &targets, &mut clip, false);
    assert!(matches!(&job.steps[0], Step::RevealParent(p) if p == "/a"));
    assert_eq!(job.steps[0].failure_message("x"), None);
}

#[test]
fn send_steps_copy_into_destination() {
    let steps = philes::actions::send_steps(&strings(&["/a/x", "/a/y"]), &"/dest".to_string());
    assert_eq!(steps.len(), 2);
    match &steps[1] {
        Step::SendInto { source, dest_dir, name } => {
            assert_eq!(source, "/a/y");
            assert_eq!(dest_dir, "/dest");
            assert_eq!(name, "y");
        }
        _ => panic!("expected a send step"),
    }
    assert_eq!(
        steps[1].failure_message("full"),
        Some("Send failed for \"y\": full".to_string())
    );
}

#[test]
fn new_folder_plans_creation_in_first_target() {
    let mut clip = Clipboard::default();
    let job = execute(&ContextAction::NewFolder, &strings(&["/home/me"]), &mut clip, false);
    assert!(matches!(&job.steps[0], Step::CreateFolder(p) if p == "/home/me"));
    assert_eq!(
        job.steps[0].failure_message("exists"),
        Some("Failed to create folder: exists".to_string())
    );
    let job = execute(&ContextAction::NewFolder, &Vec::new(), &mut clip, false);
    assert!(job.steps.is_empty());
}

#[test]
fn new_folder_names() {
    assert_eq!(new_folder_name(1), "Untitled Folder");
    assert_eq!(new_folder_name(2), "Untitled Folder 2");
    assert_eq!(new_folder_name(10), "Untitled Folder 10");
    assert_eq!(new_folder_name(123), "Untitled Folder 123");
}

#[test]
fn folder_search_finds_least_free_name() {
    let taken = ["Untitled Folder", "Untitled Folder 2", "Untitled Folder 4"];
    let mut count: usize = 1;
    let name = loop {
        let candidate = new_folder_name(count);
        match search_folder_name(count, taken.contains(&candidate.as_str())) {
            FolderSearch::Create(name) => break name,
            FolderSearch::Next(next) => count = next,
        }
    };
    assert_eq!(name, "Untitled Folder 3");
    assert!(matches!(search_folder_name(1, false), FolderSearch::Create(n) if n == "Untitled Folder"));
    assert!(matches!(search_folder_name(7, true), FolderSearch::Next(8)));
}

#[test]
fn failure_messages_quote_names_as_os_strings() {
    let step = Step::Open("/a/Bob's.txt".to_string());
    assert_eq!(
        step.failure_message("e"),
        Some("Could not open Some(\"Bob's.txt\"): e".to_string())
    );
    let tab = Step::Remove("/a/x\ty".to_string());
    assert_eq!(tab.failure_message("e"), Some("Delete failed for Some(\"x\\ty\"): e".to_string()));
    let mut clip = Clipboard::default();
    execute(&ContextAction::Copy, &strings(&["/a/it's"]), &mut clip, false);
    let job = execute(&ContextAction::Paste, &strings(&["/b"]), &mut clip, false);
    assert_eq!(
        job.steps[0].failure_message("full"),
        Some("Paste failed for \"it's\": full".to_string())
    );
}
