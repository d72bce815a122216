use vstd::prelude::*;

use crate::decimal::{decimal, decimal_string};
use crate::paths::{file_name_of, os_debug_text, os_debug_text_of, parent_of, path_file_name, path_parent};

verus! {

/// An entry of the context menu.
#[derive(Debug, Clone, Copy, PartialEq, Eq, Structural)]
pub enum ContextAction {
    Open,
    OpenWith,
    Copy,
    Cut,
    Delete,
    Send,
    Paste,
    NewFolder,
}

/// The text shown for an action in the menu.
pub open spec fn label_text(action: ContextAction) -> Seq<char> {
    match action {
        ContextAction::Open => "Open"@,
        ContextAction::OpenWith => "Open With..."@,
        ContextAction::Copy => "Copy"@,
        ContextAction::Cut => "Cut"@,
        ContextAction::Delete => "Delete"@,
        ContextAction::Send => "Send To..."@,
        ContextAction::Paste => "Paste"@,
        ContextAction::NewFolder => "New Folder"@,
    }
}

/// The short glyph shown before an action's label.
pub open spec fn icon_text(action: ContextAction) -> Seq<char> {
    match action {
        ContextAction::Open => "->"@,
        ContextAction::OpenWith => "..."@,
        ContextAction::Copy => "[C]"@,
        ContextAction::Cut => "[X]"@,
        ContextAction::Delete => "DEL"@,
        ContextAction::Send => "=>"@,
        ContextAction::Paste => "[V]"@,
        ContextAction::NewFolder => "+DIR"@,
    }
}

impl ContextAction {
    pub fn label(&self) -> (text: &'static str)
        ensures
            text@ == label_text(*self),
    {
        match self {
            ContextAction::Open => "Open",
            ContextAction::OpenWith => "Open With...",
            ContextAction::Copy => "Copy",
            ContextAction::Cut => "Cut",
            ContextAction::Delete => "Delete",
            ContextAction::Send => "Send To...",
            ContextAction::Paste => "Paste",
            ContextAction::NewFolder => "New Folder",
        }
    }

    pub fn icon(&self) -> (text: &'static str)
        ensures
            text@ == icon_text(*self),
    {
        match self {
            ContextAction::Open => "->",
            ContextAction::OpenWith => "...",
            ContextAction::Copy => "[C]",
            ContextAction::Cut => "[X]",
            ContextAction::Delete => "DEL",
            ContextAction::Send => "=>",
            ContextAction::Paste => "[V]",
            ContextAction::NewFolder => "+DIR",
        }
    }
}

impl ContextAction {
    /// The actions offered when the menu was opened on files or folders.
    pub fn item_actions() -> (actions: Vec<ContextAction>)
        ensures
            actions@ == item_action_list(),
    {
        let mut actions = Vec::new();
        actions.push(ContextAction::Open);
        actions.push(ContextAction::OpenWith);
        actions.push(ContextAction::Copy);
        actions.push(ContextAction::Cut);
        actions.push(ContextAction::Delete);
        actions.push(ContextAction::Send);
        actions
    }

    /// The actions offered when the menu was opened on the empty background.
    pub fn background_actions() -> (actions: Vec<ContextAction>)
        ensures
            actions@ == background_action_list(),
    {
        let mut actions = Vec::new();
        actions.push(ContextAction::NewFolder);
        actions.push(ContextAction::Paste);
        actions
    }
}

pub open spec fn item_action_list() -> Seq<ContextAction> {
    seq![
        ContextAction::Open,
        ContextAction::OpenWith,
        ContextAction::Copy,
        ContextAction::Cut,
        ContextAction::Delete,
        ContextAction::Send,
    ]
}

pub open spec fn background_action_list() -> Seq<ContextAction> {
    seq![ContextAction::NewFolder, ContextAction::Paste]
}

/// No two actions share a label, so the menu's text tells them apart.
pub proof fn lemma_labels_distinct(a: ContextAction, b: ContextAction)
    requires
        label_text(a) == label_text(b),
    ensures
        a == b,
{
    reveal_strlit("Open");
    reveal_strlit("Open With...");
    reveal_strlit("Copy");
    reveal_strlit("Cut");
    reveal_strlit("Delete");
    reveal_strlit("Send To...");
    reveal_strlit("Paste");
    reveal_strlit("New Folder");
    let (la, lb) = (label_text(a), label_text(b));
    assert(la.len() == lb.len() && la[0] == lb[0]);
    match a {
        ContextAction::Open => assert(la.len() == 4 && la[0] == 'O'),
        ContextAction::OpenWith => assert(la.len() == 12),
        ContextAction::Copy => assert(la.len() == 4 && la[0] == 'C'),
        ContextAction::Cut => assert(la.len() == 3),
        ContextAction::Delete => assert(la.len() == 6),
        ContextAction::Send => assert(la.len() == 10 && la[0] == 'S'),
        ContextAction::Paste => assert(la.len() == 5),
        ContextAction::NewFolder => assert(la.len() == 10 && la[0] == 'N'),
    }
}

/// The item menu and the background menu share no action, and each lists
/// every action once.
pub proof fn lemma_menus_disjoint()
    ensures
        forall|i: int, j: int|
            0 <= i < item_action_list().len() && 0 <= j < background_action_list().len()
                ==> item_action_list()[i] != background_action_list()[j],
        item_action_list().no_duplicates(),
        background_action_list().no_duplicates(),
{
}

// ── Context-menu state ───────────────────────────────────────────────────────

/// The context menu: whether it is shown, and the paths it acts on. Where it
/// is drawn on screen is the window's business.
#[derive(Debug)]
pub struct ContextMenu {
    pub visible: bool,
    /// The file-system paths the menu applies to (selected items).
    pub targets: Vec<String>,
}

/// What the contracts see of the menu.
pub struct MenuView {
    pub visible: bool,
    pub targets: Seq<Seq<char>>,
}

impl DeepView for ContextMenu {
    type V = MenuView;

    open spec fn deep_view(&self) -> MenuView {
        MenuView { visible: self.visible, targets: self.targets.deep_view() }
    }
}

/// The closed menu.
pub open spec fn closed_menu() -> MenuView {
    MenuView { visible: false, targets: Seq::empty() }
}

impl ContextMenu {
    /// A shown menu acting on `targets`.
    pub fn open(targets: Vec<String>) -> (menu: Self)
        ensures
            menu.visible,
            menu.targets == targets,
    {
        ContextMenu { visible: true, targets }
    }

    /// The hidden menu with no targets.
    pub fn close() -> (menu: Self)
        ensures
            menu.deep_view() == closed_menu(),
    {
        let menu = ContextMenu { visible: false, targets: Vec::new() };
        proof {
            assert(menu.targets.deep_view() =~= Seq::<Seq<char>>::empty());
        }
        menu
    }
}

impl Default for ContextMenu {
    fn default() -> (menu: Self)
        ensures
            menu.deep_view() == closed_menu(),
    {
        ContextMenu::close()
    }
}

// ── Clipboard state ──────────────────────────────────────────────────────────

/// The paths that were copied or cut, and which of the two it was.
#[derive(Debug)]
pub struct Clipboard {
    pub paths: Vec<String>,
    pub is_cut: bool,
}

/// What the contracts see of the clipboard.
pub struct ClipboardView {
    pub paths: Seq<Seq<char>>,
    pub is_cut: bool,
}

impl DeepView for Clipboard {
    type V = ClipboardView;

    open spec fn deep_view(&self) -> ClipboardView {
        ClipboardView { paths: self.paths.deep_view(), is_cut: self.is_cut }
    }
}

impl Default for Clipboard {
    fn default() -> (clipboard: Self)
        ensures
            clipboard.deep_view() == (ClipboardView { paths: Seq::empty(), is_cut: false }),
    {
        let clipboard = Clipboard { paths: Vec::new(), is_cut: false };
        proof {
            assert(clipboard.paths.deep_view() =~= Seq::<Seq<char>>::empty());
        }
        clipboard
    }
}

// ── Action execution ─────────────────────────────────────────────────────────

/// One thing an action asks of the file system or the desktop. The program
/// around the library performs the steps of a job in order.
pub enum Step {
    /// Open a path in its default application.
    Open(String),
    /// Ask the user for an application, then open every one of these targets
    /// with it.
    ChooseApplication(Vec<String>),
    /// Remove a path: a folder with everything in it, or a file.
    Remove(String),
    /// Ask the user for a folder, then perform the `send_steps` of these
    /// targets into it.
    ChooseDestination(Vec<String>),
    /// Open the folder that holds the targets.
    RevealParent(String),
    /// Put `source` into `dest_dir` under `name`: renamed there when
    /// `moving`, otherwise copied (a folder with everything in it).
    PasteInto { source: String, dest_dir: String, name: String, moving: bool },
    /// Copy `source` (a folder with everything in it, or a file) into
    /// `dest_dir` under `name`.
    SendInto { source: String, dest_dir: String, name: String },
    /// Create the first folder named by `new_folder_name` that does not exist
    /// yet in the given folder.
    CreateFolder(String),
}

/// What the contracts see of a step.
pub enum StepView {
    Open(Seq<char>),
    ChooseApplication(Seq<Seq<char>>),
    Remove(Seq<char>),
    ChooseDestination(Seq<Seq<char>>),
    RevealParent(Seq<char>),
    PasteInto { source: Seq<char>, dest_dir: Seq<char>, name: Seq<char>, moving: bool },
    SendInto { source: Seq<char>, dest_dir: Seq<char>, name: Seq<char> },
    CreateFolder(Seq<char>),
}

impl DeepView for Step {
    type V = StepView;

    open spec fn deep_view(&self) -> StepView {
        match self {
            Step::Open(p) => StepView::Open(p@),
            Step::ChooseApplication(t) => StepView::ChooseApplication(t.deep_view()),
            Step::Remove(p) => StepView::Remove(p@),
            Step::ChooseDestination(t) => StepView::ChooseDestination(t.deep_view()),
            Step::RevealParent(p) => StepView::RevealParent(p@),
            Step::PasteInto { source, dest_dir, name, moving } => StepView::PasteInto {
                source: source@,
                dest_dir: dest_dir@,
                name: name@,
                moving: *moving,
            },
            Step::SendInto { source, dest_dir, name } => StepView::SendInto {
                source: source@,
                dest_dir: dest_dir@,
                name: name@,
            },
            Step::CreateFolder(p) => StepView::CreateFolder(p@),
        }
    }
}

/// What an action leaves to be done: its steps, or the error it failed with
/// at once, and whether success empties the clipboard.
pub struct Job {
    pub action: ContextAction,
    pub steps: Vec<Step>,
    pub error: Option<String>,
    pub clears_clipboard: bool,
}

/// What the contracts see of a job.
pub struct JobView {
    pub action: ContextAction,
    pub steps: Seq<StepView>,
    pub error: Option<Seq<char>>,
    pub clears_clipboard: bool,
}

impl DeepView for Job {
    type V = JobView;

    open spec fn deep_view(&self) -> JobView {
        JobView {
            action: self.action,
            steps: self.steps.deep_view(),
            error: self.error.deep_view(),
            clears_clipboard: self.clears_clipboard,
        }
    }
}

/// Open every target, in order.
pub open spec fn open_steps(targets: Seq<Seq<char>>) -> Seq<StepView> {
    targets.map_values(|p: Seq<char>| StepView::Open(p))
}

/// Remove every target, in order.
pub open spec fn remove_steps(targets: Seq<Seq<char>>) -> Seq<StepView> {
    targets.map_values(|p: Seq<char>| StepView::Remove(p))
}

/// For every path that has a file name, in order, a step that brings it into
/// `dest_dir` under that name; paths without a file name are skipped.
pub open spec fn transfer_steps(
    paths: Seq<Seq<char>>,
    dest_dir: Seq<char>,
    moving: bool,
    sending: bool,
) -> Seq<StepView>
    decreases paths.len(),
{
    if paths.len() == 0 {
        Seq::empty()
    } else {
        let rest = transfer_steps(paths.drop_last(), dest_dir, moving, sending);
        let source = paths.last();
        match file_name_of(source) {
            Some(name) => rest.push(
                if sending {
                    StepView::SendInto { source, dest_dir, name }
                } else {
                    StepView::PasteInto { source, dest_dir, name, moving }
                },
            ),
            None => rest,
        }
    }
}

/// A job with these steps, no immediate error and no effect on the clipboard.
pub open spec fn steps_job(action: ContextAction, steps: Seq<StepView>) -> JobView {
    JobView { action, steps, error: None, clears_clipboard: false }
}

/// What `execute` plans for an action on `targets` with the clipboard in
/// state `clip`, and the clipboard afterwards. `pickers` tells whether the
/// desktop offers the pickers for an application and a destination folder.
pub open spec fn planned(
    action: ContextAction,
    targets: Seq<Seq<char>>,
    clip: ClipboardView,
    pickers: bool,
) -> (JobView, ClipboardView) {
    match action {
        ContextAction::Open => (steps_job(action, open_steps(targets)), clip),
        ContextAction::OpenWith => if pickers {
            (steps_job(action, seq![StepView::ChooseApplication(targets)]), clip)
        } else {
            (steps_job(action, open_steps(targets)), clip)
        },
        ContextAction::Copy => (
            steps_job(action, Seq::empty()),
            ClipboardView { paths: targets, is_cut: false },
        ),
        ContextAction::Cut => (
            steps_job(action, Seq::empty()),
            ClipboardView { paths: targets, is_cut: true },
        ),
        ContextAction::Delete => (steps_job(action, remove_steps(targets)), clip),
        ContextAction::Send => if pickers {
            (steps_job(action, seq![StepView::ChooseDestination(targets)]), clip)
        } else if targets.len() > 0 && parent_of(targets[0]) is Some {
            (steps_job(action, seq![StepView::RevealParent(parent_of(targets[0])->0)]), clip)
        } else {
            (steps_job(action, Seq::empty()), clip)
        },
        ContextAction::Paste => if clip.paths.len() == 0 {
            (
                JobView {
                    action,
                    steps: Seq::empty(),
                    error: Some("Clipboard is empty"@),
                    clears_clipboard: false,
                },
                clip,
            )
        } else if targets.len() == 0 {
            (steps_job(action, Seq::empty()), clip)
        } else {
            (
                JobView {
                    action,
                    steps: transfer_steps(clip.paths, targets[0], clip.is_cut, false),
                    error: None,
                    clears_clipboard: clip.is_cut,
                },
                clip,
            )
        },
        ContextAction::NewFolder => if targets.len() > 0 {
            (steps_job(action, seq![StepView::CreateFolder(targets[0])]), clip)
        } else {
            (steps_job(action, Seq::empty()), clip)
        },
    }
}

fn open_each(targets: &Vec<String>) -> (steps: Vec<Step>)
    ensures
        steps.deep_view() == open_steps(targets.deep_view()),
{
    let mut steps: Vec<Step> = Vec::new();
    let mut i: usize = 0;
    while i < targets.len()
        invariant
            i <= targets.len(),
            steps.deep_view() =~= open_steps(targets.deep_view().take(i as int)),
        decreases targets.len() - i,
    {
        let ghost before = steps.deep_view();
        steps.push(Step::Open(targets[i].clone()));
        proof {
            assert(steps.deep_view() =~= before.push(steps.deep_view().last()));
        }
        i = i + 1;
    }
    proof {
        assert(targets.deep_view().take(targets.len() as int) =~= targets.deep_view());
    }
    steps
}

fn remove_each(targets: &Vec<String>) -> (steps: Vec<Step>)
    ensures
        steps.deep_view() == remove_steps(targets.deep_view()),
        steps.len() == targets.len(),
        forall|i: int|
            0 <= i < targets.len() ==> (#[trigger] steps.deep_view()[i]) == StepView::Remove(
                targets.deep_view()[i],
            ),
{
    let mut steps: Vec<Step> = Vec::new();
    let mut i: usize = 0;
    while i < targets.len()
        invariant
            i <= targets.len(),
            steps.deep_view() =~= remove_steps(targets.deep_view().take(i as int)),
        decreases targets.len() - i,
    {
        let ghost before = steps.deep_view();
        steps.push(Step::Remove(targets[i].clone()));
        proof {
            assert(steps.deep_view() =~= before.push(steps.deep_view().last()));
        }
        i = i + 1;
    }
    proof {
        assert(targets.deep_view().take(targets.len() as int) =~= targets.deep_view());
    }
    steps
}

fn transfer_each(paths: &Vec<String>, dest_dir: &String, moving: bool, sending: bool) -> (steps: Vec<
    Step,
>)
    ensures
        steps.deep_view() == transfer_steps(paths.deep_view(), dest_dir@, moving, sending),
{
    let ghost all = paths.deep_view();
    let mut steps: Vec<Step> = Vec::new();
    let mut i: usize = 0;
    proof {
        assert(all.take(0) =~= Seq::<Seq<char>>::empty());
        assert(steps.deep_view() =~= Seq::<StepView>::empty());
    }
    while i < paths.len()
        invariant
            all == paths.deep_view(),
            i <= paths.len(),
            steps.deep_view() == transfer_steps(all.take(i as int), dest_dir@, moving, sending),
        decreases paths.len() - i,
    {
        proof {
            assert(all.take(i + 1).drop_last() =~= all.take(i as int));
            assert(all.take(i + 1).last() == all[i as int]);
        }
        let source = &paths[i];
        let ghost before = steps.deep_view();
        match path_file_name(source.as_str()) {
            Some(name) => {
                if sending {
                    steps.push(
                        Step::SendInto { source: source.clone(), dest_dir: dest_dir.clone(), name },
                    );
                } else {
                    steps.push(
                        Step::PasteInto {
                            source: source.clone(),
                            dest_dir: dest_dir.clone(),
                            name,
                            moving,
                        },
                    );
                }
                proof {
                    assert(steps.deep_view() =~= before.push(steps.deep_view().last()));
                }
            },
            None => {},
        }
        i = i + 1;
    }
    proof {
        assert(all.take(paths.len() as int) =~= all);
    }
    steps
}

/// The steps that send `targets` into the folder the user picked.
pub fn send_steps(targets: &Vec<String>, dest_dir: &String) -> (steps: Vec<Step>)
    ensures
        steps.deep_view() == transfer_steps(targets.deep_view(), dest_dir@, false, true),
{
    transfer_each(targets, dest_dir, false, true)
}

fn plain_job(action: ContextAction, steps: Vec<Step>) -> (job: Job)
    ensures
        job.deep_view() == steps_job(action, steps.deep_view()),
{
    Job { action, steps, error: None, clears_clipboard: false }
}

fn one_step(step: Step) -> (steps: Vec<Step>)
    ensures
        steps.deep_view() == seq![step.deep_view()],
{
    let mut steps = Vec::new();
    steps.push(step);
    proof {
        assert(steps.deep_view() =~= seq![step.deep_view()]);
    }
    steps
}

fn no_steps() -> (steps: Vec<Step>)
    ensures
        steps.deep_view() == Seq::<StepView>::empty(),
{
    let steps = Vec::new();
    proof {
        assert(steps.deep_view() =~= Seq::<StepView>::empty());
    }
    steps
}

fn copy_paths(paths: &Vec<String>) -> (copy: Vec<String>)
    ensures
        copy.deep_view() == paths.deep_view(),
{
    let mut copy: Vec<String> = Vec::new();
    let mut i: usize = 0;
    while i < paths.len()
        invariant
            i <= paths.len(),
            copy.deep_view() =~= paths.deep_view().take(i as int),
        decreases paths.len() - i,
    {
        let ghost before = copy.deep_view();
        copy.push(paths[i].clone());
        proof {
            assert(copy.deep_view() =~= before.push(copy.deep_view().last()));
        }
        i = i + 1;
    }
    proof {
        assert(paths.deep_view().take(paths.len() as int) =~= paths.deep_view());
    }
    copy
}

/// Plans a context-menu action against the given targets. Copy and Cut take
/// effect on the clipboard here; every other effect is a step of the job.
pub fn execute(
    action: &ContextAction,
    targets: &Vec<String>,
    clipboard: &mut Clipboard,
    pickers: bool,
) -> (job: Job)
    ensures
        (job.deep_view(), final(clipboard).deep_view()) == planned(
            *action,
            targets.deep_view(),
            old(clipboard).deep_view(),
            pickers,
        ),
        *action == ContextAction::Delete ==> {
            &&& job.steps.len() == targets.len()
            &&& forall|i: int|
                0 <= i < targets.len() ==> (#[trigger] job.steps.deep_view()[i]) == StepView::Remove(
                    targets.deep_view()[i],
                )
        },
{
    let action = *action;
    match action {
        ContextAction::Open => plain_job(action, open_each(targets)),
        ContextAction::OpenWith => {
            if pickers {
                plain_job(action, one_step(Step::ChooseApplication(copy_paths(targets))))
            } else {
                plain_job(action, open_each(targets))
            }
        },
        ContextAction::Copy => {
            clipboard.paths = copy_paths(targets);
            clipboard.is_cut = false;
            plain_job(action, no_steps())
        },
        ContextAction::Cut => {
            clipboard.paths = copy_paths(targets);
            clipboard.is_cut = true;
            plain_job(action, no_steps())
        },
        ContextAction::Delete => {
            let job = plain_job(action, remove_each(targets));
            proof {
                lemma_delete_removes_each(targets.deep_view(), old(clipboard).deep_view(), pickers);
                assert(job.steps.deep_view().len() == job.steps.len());
            }
            job
        },
        ContextAction::Send => {
            if pickers {
                plain_job(action, one_step(Step::ChooseDestination(copy_paths(targets))))
            } else if targets.len() > 0 {
                match path_parent(targets[0].as_str()) {
                    Some(parent) => plain_job(action, one_step(Step::RevealParent(parent))),
                    None => plain_job(action, no_steps()),
                }
            } else {
                plain_job(action, no_steps())
            }
        },
        ContextAction::Paste => {
            if clipboard.paths.len() == 0 {
                let steps = no_steps();
                Job {
                    action,
                    steps,
                    error: Some(String::from_str("Clipboard is empty")),
                    clears_clipboard: false,
                }
            } else if targets.len() == 0 {
                plain_job(action, no_steps())
            } else {
                let steps = transfer_each(&clipboard.paths, &targets[0], clipboard.is_cut, false);
                Job { action, steps, error: None, clears_clipboard: clipboard.is_cut }
            }
        },
        ContextAction::NewFolder => {
            if targets.len() > 0 {
                plain_job(action, one_step(Step::CreateFolder(targets[0].clone())))
            } else {
                plain_job(action, no_steps())
            }
        },
    }
}

/// How `{:?}` writes an optional file name.
pub open spec fn optional_name_debug(name: Option<Seq<char>>) -> Seq<char> {
    match name {
        Some(n) => "Some("@ + os_debug_text_of(n) + ")"@,
        None => "None"@,
    }
}

/// The error a failed step reports, given the failure's own message, or
/// `None` when the failure is ignored.
pub open spec fn failure_text(step: StepView, cause: Seq<char>) -> Option<Seq<char>> {
    match step {
        StepView::Open(p) => Some(
            "Could not open "@ + optional_name_debug(file_name_of(p)) + ": "@ + cause,
        ),
        StepView::ChooseApplication(_) => Some("Failed to launch app picker: "@ + cause),
        StepView::Remove(p) => Some(
            "Delete failed for "@ + optional_name_debug(file_name_of(p)) + ": "@ + cause,
        ),
        StepView::ChooseDestination(_) => Some("Failed to open destination picker: "@ + cause),
        StepView::RevealParent(_) => None,
        StepView::PasteInto { name, .. } => Some(
            "Paste failed for "@ + os_debug_text_of(name) + ": "@ + cause,
        ),
        StepView::SendInto { name, .. } => Some(
            "Send failed for "@ + os_debug_text_of(name) + ": "@ + cause,
        ),
        StepView::CreateFolder(_) => Some("Failed to create folder: "@ + cause),
    }
}

fn optional_name_text(path: &String) -> (text: String)
    ensures
        text@ == optional_name_debug(file_name_of(path@)),
{
    match path_file_name(path.as_str()) {
        Some(name) => {
            let mut text = String::from_str("Some(");
            text.append(os_debug_text(name.as_str()).as_str());
            text.append(")");
            text
        },
        None => String::from_str("None"),
    }
}

fn compose(prefix: &str, middle: &str, cause: &str) -> (text: String)
    ensures
        text@ == prefix@ + middle@ + ": "@ + cause@,
{
    let mut text = String::from_str(prefix);
    text.append(middle);
    text.append(": ");
    text.append(cause);
    text
}

impl Step {
    /// The error this step reports when it fails with `cause`, or `None` when
    /// its failure is ignored and the job goes on.
    pub fn failure_message(&self, cause: &str) -> (message: Option<String>)
        ensures
            message.deep_view() == failure_text(self.deep_view(), cause@),
    {
        match self {
            Step::Open(p) => Some(compose("Could not open ", optional_name_text(p).as_str(), cause)),
            Step::ChooseApplication(_) => {
                let mut text = String::from_str("Failed to launch app picker: ");
                text.append(cause);
                Some(text)
            },
            Step::Remove(p) => Some(
                compose("Delete failed for ", optional_name_text(p).as_str(), cause),
            ),
            Step::ChooseDestination(_) => {
                let mut text = String::from_str("Failed to open destination picker: ");
                text.append(cause);
                Some(text)
            },
            Step::RevealParent(_) => None,
            Step::PasteInto { name, .. } => Some(
                compose("Paste failed for ", os_debug_text(name.as_str()).as_str(), cause),
            ),
            Step::SendInto { name, .. } => Some(
                compose("Send failed for ", os_debug_text(name.as_str()).as_str(), cause),
            ),
            Step::CreateFolder(_) => {
                let mut text = String::from_str("Failed to create folder: ");
                text.append(cause);
                Some(text)
            },
        }
    }
}

/// What remains of an action once its steps ran: the error it reports and
/// the clipboard. `failure` is the message of the first step that failed.
pub open spec fn finished(job: JobView, failure: Option<Seq<char>>, clip: ClipboardView) -> (
    Option<Seq<char>>,
    ClipboardView,
) {
    match failure {
        Some(message) => (Some(message), clip),
        None => match job.error {
            Some(error) => (Some(error), clip),
            None => if job.clears_clipboard {
                (None, ClipboardView { paths: Seq::empty(), is_cut: clip.is_cut })
            } else {
                (None, clip)
            },
        },
    }
}

/// Concludes a job: reports the first failure, or the job's own error, and
/// empties the clipboard after a cut was pasted.
pub fn finish(job: &Job, failure: Option<String>, clipboard: &mut Clipboard) -> (error: Option<
    String,
>)
    ensures
        (error.deep_view(), final(clipboard).deep_view()) == finished(
            job.deep_view(),
            failure.deep_view(),
            old(clipboard).deep_view(),
        ),
{
    match failure {
        Some(message) => Some(message),
        None => match &job.error {
            Some(error) => Some(error.clone()),
            None => {
                if job.clears_clipboard {
                    clipboard.paths.clear();
                    proof {
                        assert(clipboard.paths.deep_view() =~= Seq::<Seq<char>>::empty());
                    }
                }
                None
            },
        },
    }
}

/// The name tried for a new folder on the `count`-th attempt: the plain name
/// first, then the name with the attempt's number.
pub open spec fn folder_name(count: nat) -> Seq<char> {
    if count <= 1 {
        "Untitled Folder"@
    } else {
        "Untitled Folder "@ + decimal(count)
    }
}

/// The name tried for a new folder on the `count`-th attempt; attempts count
/// from 1 and go on while a folder of that name exists.
pub fn new_folder_name(count: usize) -> (name: String)
    ensures
        name@ == folder_name(count as nat),
{
    if count <= 1 {
        String::from_str("Untitled Folder")
    } else {
        let mut name = String::from_str("Untitled Folder ");
        name.append(decimal_string(count).as_str());
        name
    }
}

/// One attempt of the search for a new folder's name: when the name of
/// attempt `count` is taken, the search goes on with the next attempt;
/// otherwise that name is the one to create.
pub enum FolderSearch {
    Create(String),
    Next(usize),
}

pub enum FolderSearchView {
    Create(Seq<char>),
    Next(nat),
}

impl DeepView for FolderSearch {
    type V = FolderSearchView;

    open spec fn deep_view(&self) -> FolderSearchView {
        match self {
            FolderSearch::Create(name) => FolderSearchView::Create(name@),
            FolderSearch::Next(count) => FolderSearchView::Next(*count as nat),
        }
    }
}

/// The outcome of attempt `count`, given whether its name is taken.
pub open spec fn folder_search(count: nat, taken: bool) -> FolderSearchView {
    if taken {
        FolderSearchView::Next(count + 1)
    } else {
        FolderSearchView::Create(folder_name(count))
    }
}

/// Decides attempt `count` of the search for a new folder's name; `taken`
/// tells whether a folder of that attempt's name exists.
pub fn search_folder_name(count: usize, taken: bool) -> (outcome: FolderSearch)
    requires
        taken ==> count < usize::MAX,
    ensures
        outcome.deep_view() == folder_search(count as nat, taken),
{
    if taken {
        FolderSearch::Next(count + 1)
    } else {
        FolderSearch::Create(new_folder_name(count))
    }
}

/// The search run from attempt `count` with the answers `taken` to "is this
/// attempt's name taken?", one per attempt, until a name is free.
pub open spec fn search_run(count: nat, taken: Seq<bool>) -> FolderSearchView
    decreases taken.len(),
{
    if taken.len() == 0 {
        FolderSearchView::Next(count)
    } else {
        match folder_search(count, taken[0]) {
            FolderSearchView::Next(next) => search_run(next, taken.drop_first()),
            done => done,
        }
    }
}

/// The search started at attempt `count` creates the least free name: the
/// name of the first attempt whose name is not taken.
pub proof fn lemma_least_free_name(count: nat, taken: Seq<bool>, n: int)
    requires
        0 <= n < taken.len(),
        forall|k: int| 0 <= k < n ==> taken[k],
        !taken[n],
    ensures
        search_run(count, taken) == FolderSearchView::Create(folder_name(count + n as nat)),
    decreases n,
{
    if n > 0 {
        let rest = taken.drop_first();
        assert forall|k: int| 0 <= k < n - 1 implies rest[k] by {
            assert(rest[k] == taken[k + 1]);
        }
        assert(rest[n - 1] == taken[n]);
        lemma_least_free_name(count + 1, rest, n - 1);
        assert(count + 1 + (n - 1) as nat == count + n as nat);
    }
}

// ── Laws ─────────────────────────────────────────────────────────────────────

/// Cut, then a Paste that succeeds: the job moves every cut path that has a
/// file name into the destination, and empties the clipboard. A Paste that
/// fails leaves the clipboard as the Cut made it.
pub proof fn lemma_cut_then_paste(
    clip: ClipboardView,
    targets: Seq<Seq<char>>,
    dest: Seq<Seq<char>>,
    pickers: bool,
    failure: Seq<char>,
)
    requires
        targets.len() > 0,
        dest.len() > 0,
    ensures
        ({
            let (_, cut) = planned(ContextAction::Cut, targets, clip, pickers);
            let (job, clip2) = planned(ContextAction::Paste, dest, cut, pickers);
            &&& cut == ClipboardView { paths: targets, is_cut: true }
            &&& clip2 == cut
            &&& job.steps == transfer_steps(targets, dest[0], true, false)
            &&& job.error is None
            &&& finished(job, None, clip2) == (
                None::<Seq<char>>,
                ClipboardView { paths: Seq::empty(), is_cut: true },
            )
            &&& finished(job, Some(failure), clip2) == (Some(failure), cut)
        }),
{
}

/// Copy, then a Paste that succeeds: the job copies every copied path that
/// has a file name into the destination, and the clipboard stays, so the same
/// paths can be pasted again.
pub proof fn lemma_copy_then_paste(
    clip: ClipboardView,
    targets: Seq<Seq<char>>,
    dest: Seq<Seq<char>>,
    pickers: bool,
)
    requires
        targets.len() > 0,
        dest.len() > 0,
    ensures
        ({
            let (_, copied) = planned(ContextAction::Copy, targets, clip, pickers);
            let (job, clip2) = planned(ContextAction::Paste, dest, copied, pickers);
            &&& copied == ClipboardView { paths: targets, is_cut: false }
            &&& job.steps == transfer_steps(targets, dest[0], false, false)
            &&& finished(job, None, clip2) == (None::<Seq<char>>, copied)
        }),
{
}

/// Paste with nothing copied or cut fails with "Clipboard is empty" and
/// changes nothing.
pub proof fn lemma_paste_needs_clipboard(clip: ClipboardView, targets: Seq<Seq<char>>, pickers: bool)
    requires
        clip.paths.len() == 0,
    ensures
        ({
            let (job, clip2) = planned(ContextAction::Paste, targets, clip, pickers);
            &&& job.steps.len() == 0
            &&& clip2 == clip
            &&& finished(job, None, clip2) == (Some("Clipboard is empty"@), clip)
        }),
{
}

/// Delete removes every target, one step per target in the order given, and
/// nothing else: the job reports no error and the clipboard stays.
pub proof fn lemma_delete_removes_each(targets: Seq<Seq<char>>, clip: ClipboardView, pickers: bool)
    ensures
        ({
            let (job, clip2) = planned(ContextAction::Delete, targets, clip, pickers);
            &&& job.steps.len() == targets.len()
            &&& forall|i: int|
                0 <= i < targets.len() ==> job.steps[i] == StepView::Remove(#[trigger] targets[i])
            &&& job.error is None
            &&& !job.clears_clipboard
            &&& clip2 == clip
        }),
{
}

/// Open, and Open With where the desktop has no application picker, open
/// every target, one step per target in the order given.
pub proof fn lemma_open_opens_each(
    action: ContextAction,
    targets: Seq<Seq<char>>,
    clip: ClipboardView,
    pickers: bool,
)
    requires
        action == ContextAction::Open || (action == ContextAction::OpenWith && !pickers),
    ensures
        ({
            let (job, clip2) = planned(action, targets, clip, pickers);
            &&& job.steps.len() == targets.len()
            &&& forall|i: int|
                0 <= i < targets.len() ==> job.steps[i] == StepView::Open(#[trigger] targets[i])
            &&& job.error is None
            &&& clip2 == clip
        }),
{
}

/// Where every path has a file name, Paste and Send bring each path into the
/// destination under its file name: one step per path, in the order given;
/// with `moving`, a Paste renames rather than copies.
pub proof fn lemma_transfer_each_path(
    paths: Seq<Seq<char>>,
    dest_dir: Seq<char>,
    moving: bool,
    sending: bool,
)
    requires
        forall|i: int| 0 <= i < paths.len() ==> file_name_of(#[trigger] paths[i]) is Some,
    ensures
        transfer_steps(paths, dest_dir, moving, sending).len() == paths.len(),
        forall|i: int|
            0 <= i < paths.len() ==> #[trigger] transfer_steps(paths, dest_dir, moving, sending)[i]
                == if sending {
                StepView::SendInto {
                    source: paths[i],
                    dest_dir,
                    name: file_name_of(paths[i])->0,
                }
            } else {
                StepView::PasteInto {
                    source: paths[i],
                    dest_dir,
                    name: file_name_of(paths[i])->0,
                    moving,
                }
            },
    decreases paths.len(),
{
    if paths.len() > 0 {
        let rest = paths.drop_last();
        assert forall|i: int| 0 <= i < rest.len() implies file_name_of(#[trigger] rest[i]) is Some by {
            assert(rest[i] == paths[i]);
        }
        lemma_transfer_each_path(rest, dest_dir, moving, sending);
        assert(file_name_of(paths[paths.len() - 1]) is Some);
    }
}

/// Only Copy and Cut change the clipboard when an action is planned.
pub proof fn lemma_only_copy_and_cut_touch_clipboard(
    action: ContextAction,
    targets: Seq<Seq<char>>,
    clip: ClipboardView,
    pickers: bool,
)
    requires
        action != ContextAction::Copy,
        action != ContextAction::Cut,
    ensures
        planned(action, targets, clip, pickers).1 == clip,
{
}

} // verus!
