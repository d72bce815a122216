//! The state of the file manager and how each event changes it.

use std::collections::HashSet;
use vstd::prelude::*;

use crate::actions::{
    closed_menu, execute, finish, finished, planned, Clipboard, ClipboardView, ContextAction,
    ContextMenu, Job, JobView, MenuView, StepView,
};
use crate::files::{arranged, load_entries, Entry, EntryView, Volume, VolumeView};
use crate::paths::{parent_of, path_parent};

verus! {

broadcast use vstd::std_specs::hash::group_hash_axioms;

/// Two clicks on the same place less than this many nanoseconds apart make a
/// double click.
pub const DOUBLE_CLICK_NANOS: u64 = 400_000_000;

/// The file manager's state. Times are nanoseconds of a monotonic clock.
pub struct Philes {
    pub current_dir: String,
    pub entries: Vec<Entry>,
    pub error: Option<String>,
    pub selected: HashSet<usize>,
    pub last_clicked: Option<usize>,
    pub last_click_time: Option<(usize, u64)>,
    pub shift_held: bool,
    // Address bar
    pub address_editing: bool,
    pub address_input: String,
    pub address_last_click: Option<u64>,
    // Sidebar
    pub volumes: Vec<Volume>,
    // Context menu
    pub context_menu: ContextMenu,
    // Clipboard
    pub clipboard: Clipboard,
    /// Whether the desktop offers pickers for an application and a folder.
    pub pickers: bool,
}

/// What the contracts see of the state.
pub struct PhilesView {
    pub current_dir: Seq<char>,
    pub entries: Seq<EntryView>,
    pub error: Option<Seq<char>>,
    pub selected: Set<usize>,
    pub last_clicked: Option<usize>,
    pub last_click_time: Option<(usize, u64)>,
    pub shift_held: bool,
    pub address_editing: bool,
    pub address_input: Seq<char>,
    pub address_last_click: Option<u64>,
    pub volumes: Seq<VolumeView>,
    pub menu: MenuView,
    pub clipboard: ClipboardView,
    pub pickers: bool,
}

impl View for Philes {
    type V = PhilesView;

    open spec fn view(&self) -> PhilesView {
        PhilesView {
            current_dir: self.current_dir@,
            entries: self.entries.deep_view(),
            error: self.error.deep_view(),
            selected: self.selected@,
            last_clicked: self.last_clicked,
            last_click_time: self.last_click_time,
            shift_held: self.shift_held,
            address_editing: self.address_editing,
            address_input: self.address_input@,
            address_last_click: self.address_last_click,
            volumes: self.volumes.deep_view(),
            menu: self.context_menu.deep_view(),
            clipboard: self.clipboard.deep_view(),
            pickers: self.pickers,
        }
    }
}

/// What reading a directory gave, as the contracts see it.
pub open spec fn read_view(read: Result<Vec<Entry>, String>) -> Result<Seq<EntryView>, Seq<char>> {
    match read {
        Ok(listing) => Ok(listing.deep_view()),
        Err(e) => Err(e@),
    }
}

/// The time from `then` to `now`, or zero when `then` is later.
pub open spec fn elapsed(then: u64, now: u64) -> int {
    if now >= then {
        now - then
    } else {
        0
    }
}

/// The indices from `lo` to `hi`, both included.
pub open spec fn index_range(lo: usize, hi: usize) -> Set<usize> {
    Set::new(|i: usize| lo <= i <= hi)
}

/// The paths of the selected entries, by ascending index; selected indices
/// past the end of the listing are left out.
pub open spec fn chosen_paths(entries: Seq<EntryView>, selected: Set<usize>, n: int) -> Seq<
    Seq<char>,
>
    decreases n,
{
    if n <= 0 {
        Seq::empty()
    } else {
        let rest = chosen_paths(entries, selected, n - 1);
        if selected.contains((n - 1) as usize) {
            rest.push(entries[n - 1].path)
        } else {
            rest
        }
    }
}

pub open spec fn selected_paths_of(s: PhilesView) -> Seq<Seq<char>> {
    chosen_paths(s.entries, s.selected, s.entries.len() as int)
}

/// The state after a directory was read: on success the directory and its
/// arranged listing are current and the error is gone; on failure the error
/// is shown and the rest stays. Either way the selection is emptied and the
/// menu closed.
pub open spec fn navigated(
    s: PhilesView,
    path: Seq<char>,
    read: Result<Seq<EntryView>, Seq<char>>,
) -> PhilesView {
    let loaded = match read {
        Ok(listing) => PhilesView { current_dir: path, entries: arranged(listing), error: None, ..s },
        Err(e) => PhilesView { error: Some(e), ..s },
    };
    PhilesView { selected: Set::empty(), menu: closed_menu(), ..loaded }
}

impl Philes {
    /// Shows the result of reading the directory `path`.
    pub fn navigate(&mut self, path: String, read: Result<Vec<Entry>, String>)
        ensures
            final(self)@ == navigated(old(self)@, path@, read_view(read)),
    {
        match load_entries(read) {
            Ok(entries) => {
                self.current_dir = path;
                self.entries = entries;
                self.error = None;
            },
            Err(e) => self.error = Some(e),
        }
        self.selected.clear();
        self.context_menu = ContextMenu::close();
    }

    /// The paths of the selected entries, by ascending index.
    pub fn selected_paths(&self) -> (paths: Vec<String>)
        ensures
            paths.deep_view() == selected_paths_of(self@),
    {
        let mut paths: Vec<String> = Vec::new();
        let mut i: usize = 0;
        proof {
            assert(paths.deep_view() =~= Seq::<Seq<char>>::empty());
        }
        while i < self.entries.len()
            invariant
                i <= self.entries.len(),
                paths.deep_view() == chosen_paths(self@.entries, self@.selected, i as int),
            decreases self.entries.len() - i,
        {
            if self.selected.contains(&i) {
                let ghost before = paths.deep_view();
                paths.push(self.entries[i].path.clone());
                proof {
                    assert(paths.deep_view() =~= before.push(self.entries[i as int].path@));
                }
            }
            i = i + 1;
        }
        paths
    }
}

/// What the program around the library is asked to do after an event.
pub enum Effect {
    /// Nothing.
    Nothing,
    /// Read this directory and hand the result to `Philes::navigate`.
    Load(String),
    /// Open this file in its default application; the outcome is ignored.
    OpenFile(String),
    /// Perform the job's steps in order, stop at the first failure whose
    /// `Step::failure_message` is an error, and hand that message (or none)
    /// to `Philes::finish_job`.
    Run(Job),
    /// Put the keyboard focus into the address bar.
    FocusAddressBar,
}

/// What the contracts see of an effect.
pub enum EffectView {
    Nothing,
    Load(Seq<char>),
    OpenFile(Seq<char>),
    Run(JobView),
    FocusAddressBar,
}

impl DeepView for Effect {
    type V = EffectView;

    open spec fn deep_view(&self) -> EffectView {
        match self {
            Effect::Nothing => EffectView::Nothing,
            Effect::Load(p) => EffectView::Load(p@),
            Effect::OpenFile(p) => EffectView::OpenFile(p@),
            Effect::Run(job) => EffectView::Run(job.deep_view()),
            Effect::FocusAddressBar => EffectView::FocusAddressBar,
        }
    }
}

// ── Clicks on the grid ───────────────────────────────────────────────────────

/// A click on `index` at `now` completes a double click: the previous click
/// was on the same item less than `DOUBLE_CLICK_NANOS` before.
pub open spec fn is_double_click(s: PhilesView, index: usize, now: u64) -> bool {
    s.last_click_time matches Some((i, t)) && i == index && elapsed(t, now)
        < DOUBLE_CLICK_NANOS
}

/// The selection after a single click on `index`: with shift held, the old
/// selection plus everything from the previous click to this one (or just
/// this one, with no previous click); without shift, this one alone.
pub open spec fn clicked_selection(s: PhilesView, index: usize) -> Set<usize> {
    if s.shift_held {
        match s.last_clicked {
            Some(last) => s.selected.union(
                if last <= index {
                    index_range(last, index)
                } else {
                    index_range(index, last)
                },
            ),
            None => s.selected.insert(index),
        }
    } else {
        Set::empty().insert(index)
    }
}

/// A click on the grid item `index` at `now`: it closes the menu; a double
/// click opens the item (a folder is loaded, a file handed to its
/// application) and leaves the selection; a single click selects.
pub open spec fn clicked(s: PhilesView, index: usize, now: u64) -> (PhilesView, EffectView) {
    let s1 = PhilesView { menu: closed_menu(), last_click_time: Some((index, now)), ..s };
    if is_double_click(s, index, now) {
        let entry = s.entries[index as int];
        if entry.is_dir {
            (s1, EffectView::Load(entry.path))
        } else {
            (s1, EffectView::OpenFile(entry.path))
        }
    } else {
        (
            PhilesView {
                selected: clicked_selection(s, index),
                last_clicked: Some(index),
                ..s1
            },
            EffectView::Nothing,
        )
    }
}

impl Philes {
    /// Whether a click on `index` at `now` would complete a double click.
    pub fn is_double_click(&self, index: usize, now: u64) -> (double: bool)
        ensures
            double == is_double_click(self@, index, now),
    {
        match self.last_click_time {
            Some((i, t)) => i == index && now.saturating_sub(t) < DOUBLE_CLICK_NANOS,
            None => false,
        }
    }

    fn select_range(&mut self, lo: usize, hi: usize)
        requires
            lo <= hi,
        ensures
            final(self)@ == (PhilesView {
                selected: old(self)@.selected.union(index_range(lo, hi)),
                ..old(self)@
            }),
    {
        let ghost start = self.selected@;
        let mut i: usize = lo;
        proof {
            assert(start.union(Set::new(|j: usize| lo <= j < lo)) =~= start);
        }
        while i < hi
            invariant
                lo <= i <= hi,
                self@ == (PhilesView {
                    selected: start.union(Set::new(|j: usize| lo <= j < i)),
                    ..old(self)@
                }),
            decreases hi - i,
        {
            self.selected.insert(i);
            proof {
                assert(self.selected@ =~= start.union(Set::new(|j: usize| lo <= j < i + 1)));
            }
            i = i + 1;
        }
        self.selected.insert(hi);
        proof {
            assert(self.selected@ =~= start.union(index_range(lo, hi)));
        }
    }

    /// Handles a click on the grid item `index` at `now`. A double click
    /// reads the item, so then `index` must be within the listing.
    pub fn click(&mut self, index: usize, now: u64) -> (effect: Effect)
        requires
            is_double_click(old(self)@, index, now) ==> index < old(self).entries.len(),
        ensures
            (final(self)@, effect.deep_view()) == clicked(old(self)@, index, now),
    {
        self.context_menu = ContextMenu::close();
        let double = self.is_double_click(index, now);
        self.last_click_time = Some((index, now));
        if double {
            let entry = &self.entries[index];
            let path = entry.path.clone();
            if entry.is_dir {
                return Effect::Load(path);
            } else {
                return Effect::OpenFile(path);
            }
        }
        if self.shift_held {
            match self.last_clicked {
                Some(last) => {
                    if last <= index {
                        self.select_range(last, index);
                    } else {
                        self.select_range(index, last);
                    }
                },
                None => {
                    self.selected.insert(index);
                },
            }
        } else {
            self.selected.clear();
            self.selected.insert(index);
            proof {
                assert(self.selected@ =~= Set::<usize>::empty().insert(index));
            }
        }
        self.last_clicked = Some(index);
        Effect::Nothing
    }
}

// ── The context menu ─────────────────────────────────────────────────────────

/// A right click on the item `index`, or with `None` on the background. On
/// an item outside the selection, that item alone becomes the selection; the
/// menu then opens on the selected paths. On the background the selection is
/// dropped and the menu opens on the current directory.
pub open spec fn right_clicked(s: PhilesView, index: Option<usize>) -> PhilesView {
    match index {
        Some(idx) => {
            let s1 = if s.selected.contains(idx) {
                s
            } else {
                PhilesView { selected: Set::empty().insert(idx), last_clicked: Some(idx), ..s }
            };
            PhilesView { menu: MenuView { visible: true, targets: selected_paths_of(s1) }, ..s1 }
        },
        None => PhilesView {
            selected: Set::empty(),
            last_clicked: None,
            menu: MenuView { visible: true, targets: seq![s.current_dir] },
            ..s
        },
    }
}

/// The actions after which the listing is read again.
pub open spec fn refreshes(action: ContextAction) -> bool {
    action == ContextAction::Delete || action == ContextAction::Cut || action
        == ContextAction::Paste || action == ContextAction::NewFolder
}

/// The state once a job is over, `failure` being the message of the step
/// that failed: an error is shown; otherwise the listing is read again after
/// the actions that change it.
pub open spec fn job_finished(s: PhilesView, job: JobView, failure: Option<Seq<char>>) -> (
    PhilesView,
    EffectView,
) {
    let (error, clip) = finished(job, failure, s.clipboard);
    let s1 = PhilesView { clipboard: clip, ..s };
    match error {
        Some(e) => (PhilesView { error: Some(e), ..s1 }, EffectView::Nothing),
        None => if refreshes(job.action) {
            (s1, EffectView::Load(s.current_dir))
        } else {
            (s1, EffectView::Nothing)
        },
    }
}

/// A choice in the context menu. The menu closes; Open on a single folder
/// loads it; anything else is planned by `execute`, and a job without steps
/// is over at once.
pub open spec fn action_chosen(s: PhilesView, action: ContextAction, first_target_is_dir: bool) -> (
    PhilesView,
    EffectView,
) {
    let targets = s.menu.targets;
    let s1 = PhilesView { menu: closed_menu(), ..s };
    if action == ContextAction::Open && targets.len() == 1 && first_target_is_dir {
        (s1, EffectView::Load(targets[0]))
    } else {
        let (job, clip) = planned(action, targets, s.clipboard, s.pickers);
        let s2 = PhilesView { clipboard: clip, ..s1 };
        if job.steps.len() == 0 {
            job_finished(s2, job, None)
        } else {
            (s2, EffectView::Run(job))
        }
    }
}

impl Philes {
    /// Handles a right click on the item `index`, or on the background.
    pub fn right_click(&mut self, index: Option<usize>)
        ensures
            final(self)@ == right_clicked(old(self)@, index),
    {
        match index {
            Some(idx) => {
                if !self.selected.contains(&idx) {
                    self.selected.clear();
                    self.selected.insert(idx);
                    self.last_clicked = Some(idx);
                    proof {
                        assert(self.selected@ =~= Set::<usize>::empty().insert(idx));
                    }
                }
                let targets = self.selected_paths();
                self.context_menu = ContextMenu::open(targets);
            },
            None => {
                self.selected.clear();
                self.last_clicked = None;
                let mut targets = Vec::new();
                targets.push(self.current_dir.clone());
                proof {
                    assert(targets.deep_view() =~= seq![self.current_dir@]);
                }
                self.context_menu = ContextMenu::open(targets);
            },
        }
    }

    /// Ends a job: `failure` is the message of the step that failed, if one
    /// did.
    pub fn finish_job(&mut self, job: Job, failure: Option<String>) -> (effect: Effect)
        ensures
            (final(self)@, effect.deep_view()) == job_finished(
                old(self)@,
                job.deep_view(),
                failure.deep_view(),
            ),
            failure is None && job.error is None && (job.action == ContextAction::Delete
                || job.action == ContextAction::Cut || job.action == ContextAction::Paste
                || job.action == ContextAction::NewFolder) ==> effect.deep_view()
                == EffectView::Load(old(self).current_dir@),
    {
        match finish(&job, failure, &mut self.clipboard) {
            Some(e) => {
                self.error = Some(e);
                Effect::Nothing
            },
            None => {
                let action = job.action;
                if action == ContextAction::Delete || action == ContextAction::Cut || action
                    == ContextAction::Paste || action == ContextAction::NewFolder {
                    Effect::Load(self.current_dir.clone())
                } else {
                    Effect::Nothing
                }
            },
        }
    }

    /// Handles a choice in the context menu; `first_target_is_dir` tells
    /// whether the menu's first target is a folder.
    pub fn choose_action(&mut self, action: ContextAction, first_target_is_dir: bool) -> (effect:
        Effect)
        ensures
            (final(self)@, effect.deep_view()) == action_chosen(
                old(self)@,
                action,
                first_target_is_dir,
            ),
    {
        let mut menu = ContextMenu::close();
        std::mem::swap(&mut menu, &mut self.context_menu);
        let targets = menu.targets;
        if action == ContextAction::Open && targets.len() == 1 && first_target_is_dir {
            return Effect::Load(targets[0].clone());
        }
        let job = execute(&action, &targets, &mut self.clipboard, self.pickers);
        if job.steps.len() == 0 {
            self.finish_job(job, None)
        } else {
            Effect::Run(job)
        }
    }
}

// ── The address bar and navigation ───────────────────────────────────────────

/// A click on the address bar at `now`: a second click less than
/// `DOUBLE_CLICK_NANOS` after the first turns it into a text field holding the
/// current directory, and asks for the keyboard focus.
pub open spec fn address_clicked(s: PhilesView, now: u64) -> (PhilesView, EffectView) {
    let double = s.address_last_click matches Some(t) && elapsed(t, now) < DOUBLE_CLICK_NANOS;
    let s1 = PhilesView { address_last_click: Some(now), ..s };
    if double {
        (
            PhilesView { address_editing: true, address_input: s.current_dir, ..s1 },
            EffectView::FocusAddressBar,
        )
    } else {
        (s1, EffectView::Nothing)
    }
}

/// The error shown when the typed address is not a directory.
pub open spec fn not_a_directory(input: Seq<char>) -> Seq<char> {
    "Not a directory: "@ + input
}

/// Enter in the address bar: the text field closes; a directory is loaded,
/// anything else is reported.
pub open spec fn address_submitted(s: PhilesView, is_dir: bool) -> (PhilesView, EffectView) {
    let s1 = PhilesView { address_editing: false, ..s };
    if is_dir {
        (s1, EffectView::Load(s.address_input))
    } else {
        (PhilesView { error: Some(not_a_directory(s.address_input)), ..s1 }, EffectView::Nothing)
    }
}

/// The Up button loads the parent of the current directory, if it has one.
pub open spec fn went_up(s: PhilesView) -> EffectView {
    match parent_of(s.current_dir) {
        Some(parent) => EffectView::Load(parent),
        None => EffectView::Nothing,
    }
}

impl Philes {
    /// Handles a click on the address bar at `now`.
    pub fn click_address(&mut self, now: u64) -> (effect: Effect)
        ensures
            (final(self)@, effect.deep_view()) == address_clicked(old(self)@, now),
    {
        let double = match self.address_last_click {
            Some(t) => now.saturating_sub(t) < DOUBLE_CLICK_NANOS,
            None => false,
        };
        self.address_last_click = Some(now);
        if double {
            self.address_editing = true;
            self.address_input = self.current_dir.clone();
            Effect::FocusAddressBar
        } else {
            Effect::Nothing
        }
    }

    /// Handles Enter in the address bar; `is_dir` tells whether the typed
    /// text names a directory.
    pub fn submit_address(&mut self, is_dir: bool) -> (effect: Effect)
        ensures
            (final(self)@, effect.deep_view()) == address_submitted(old(self)@, is_dir),
    {
        self.address_editing = false;
        if is_dir {
            Effect::Load(self.address_input.clone())
        } else {
            let mut message = String::from_str("Not a directory: ");
            message.append(self.address_input.as_str());
            self.error = Some(message);
            Effect::Nothing
        }
    }

    /// Handles the Up button.
    pub fn go_up(&self) -> (effect: Effect)
        ensures
            effect.deep_view() == went_up(self@),
    {
        match path_parent(self.current_dir.as_str()) {
            Some(parent) => Effect::Load(parent),
            None => Effect::Nothing,
        }
    }
}

// ── Events ───────────────────────────────────────────────────────────────────

/// An event from the window, in plain values. Times are nanoseconds of a
/// monotonic clock.
pub enum Message {
    /// The shift key went down (`true`) or up.
    ShiftChanged(bool),
    /// The left mouse button went down anywhere in the window.
    LeftButtonPressed,
    /// An item of the grid was clicked.
    Click { index: usize, now: u64 },
    /// The right button went down on an item, or (`None`) on the background.
    RightClick(Option<usize>),
    /// An entry of the context menu was chosen; `first_target_is_dir` tells
    /// whether the menu's first target is a folder.
    ContextAction { action: ContextAction, first_target_is_dir: bool },
    /// The Up button.
    GoUp,
    /// A place in the sidebar or a breadcrumb was chosen.
    NavigateTo(String),
    /// The address bar was clicked.
    AddressClicked { now: u64 },
    /// The text of the address bar changed.
    AddressInput(String),
    /// Enter in the address bar; `is_dir` tells whether the typed text names
    /// a directory.
    AddressSubmit { is_dir: bool },
    /// Editing of the address was abandoned.
    AddressCancel,
}

/// What the contracts see of an event.
pub enum MessageView {
    ShiftChanged(bool),
    LeftButtonPressed,
    Click { index: usize, now: u64 },
    RightClick(Option<usize>),
    ContextAction { action: ContextAction, first_target_is_dir: bool },
    GoUp,
    NavigateTo(Seq<char>),
    AddressClicked { now: u64 },
    AddressInput(Seq<char>),
    AddressSubmit { is_dir: bool },
    AddressCancel,
}

impl DeepView for Message {
    type V = MessageView;

    open spec fn deep_view(&self) -> MessageView {
        match self {
            Message::ShiftChanged(b) => MessageView::ShiftChanged(*b),
            Message::LeftButtonPressed => MessageView::LeftButtonPressed,
            Message::Click { index, now } => MessageView::Click { index: *index, now: *now },
            Message::RightClick(i) => MessageView::RightClick(*i),
            Message::ContextAction { action, first_target_is_dir } => MessageView::ContextAction {
                action: *action,
                first_target_is_dir: *first_target_is_dir,
            },
            Message::GoUp => MessageView::GoUp,
            Message::NavigateTo(p) => MessageView::NavigateTo(p@),
            Message::AddressClicked { now } => MessageView::AddressClicked { now: *now },
            Message::AddressInput(t) => MessageView::AddressInput(t@),
            Message::AddressSubmit { is_dir } => MessageView::AddressSubmit { is_dir: *is_dir },
            Message::AddressCancel => MessageView::AddressCancel,
        }
    }
}

/// An event may be handled in state `s`: a double click on the grid reads
/// the clicked entry, which must exist.
pub open spec fn can_update(s: PhilesView, message: MessageView) -> bool {
    message matches MessageView::Click { index, now } ==> (is_double_click(s, index, now) ==> index
        < s.entries.len())
}

/// The state after an event, and what is asked of the program.
pub open spec fn updated(s: PhilesView, message: MessageView) -> (PhilesView, EffectView) {
    match message {
        MessageView::ShiftChanged(held) => (PhilesView { shift_held: held, ..s }, EffectView::Nothing),
        MessageView::LeftButtonPressed => if s.menu.visible {
            (PhilesView { menu: closed_menu(), ..s }, EffectView::Nothing)
        } else {
            (s, EffectView::Nothing)
        },
        MessageView::Click { index, now } => clicked(s, index, now),
        MessageView::RightClick(index) => (right_clicked(s, index), EffectView::Nothing),
        MessageView::ContextAction { action, first_target_is_dir } => action_chosen(
            s,
            action,
            first_target_is_dir,
        ),
        MessageView::GoUp => (s, went_up(s)),
        MessageView::NavigateTo(path) => (s, EffectView::Load(path)),
        MessageView::AddressClicked { now } => address_clicked(s, now),
        MessageView::AddressInput(text) => (
            PhilesView { address_input: text, ..s },
            EffectView::Nothing,
        ),
        MessageView::AddressSubmit { is_dir } => address_submitted(s, is_dir),
        MessageView::AddressCancel => (
            PhilesView { address_editing: false, ..s },
            EffectView::Nothing,
        ),
    }
}

/// Applies an event to the state and says what the program must do next.
pub fn update(app: &mut Philes, message: Message) -> (effect: Effect)
    requires
        can_update(old(app)@, message.deep_view()),
    ensures
        (final(app)@, effect.deep_view()) == updated(old(app)@, message.deep_view()),
        message.deep_view() matches MessageView::ShiftChanged(held) ==> final(app).shift_held
            == held,
{
    match message {
        Message::ShiftChanged(held) => {
            app.shift_held = held;
            Effect::Nothing
        },
        Message::LeftButtonPressed => {
            if app.context_menu.visible {
                app.context_menu = ContextMenu::close();
            }
            Effect::Nothing
        },
        Message::Click { index, now } => app.click(index, now),
        Message::RightClick(index) => {
            app.right_click(index);
            Effect::Nothing
        },
        Message::ContextAction { action, first_target_is_dir } => app.choose_action(
            action,
            first_target_is_dir,
        ),
        Message::GoUp => app.go_up(),
        Message::NavigateTo(path) => Effect::Load(path),
        Message::AddressClicked { now } => app.click_address(now),
        Message::AddressInput(text) => {
            app.address_input = text;
            Effect::Nothing
        },
        Message::AddressSubmit { is_dir } => app.submit_address(is_dir),
        Message::AddressCancel => {
            app.address_editing = false;
            Effect::Nothing
        },
    }
}

// ── Start ────────────────────────────────────────────────────────────────────

/// The directory shown first: the home directory, or the root without one.
pub open spec fn start_dir_of(home: Option<Seq<char>>) -> Seq<char> {
    match home {
        Some(h) => h,
        None => "/"@,
    }
}

/// The directory shown first: the home directory, or the root without one.
pub fn start_dir(home: Option<String>) -> (dir: String)
    ensures
        dir@ == start_dir_of(home.deep_view()),
{
    match home {
        Some(h) => h,
        None => String::from_str("/"),
    }
}

/// The state at start in `home`, given the sidebar's volumes and what reading
/// `home` gave. A failed read shows an empty listing and no error.
pub open spec fn initial(
    home: Seq<char>,
    volumes: Seq<VolumeView>,
    read: Result<Seq<EntryView>, Seq<char>>,
    pickers: bool,
) -> PhilesView {
    PhilesView {
        current_dir: home,
        entries: match read {
            Ok(listing) => arranged(listing),
            Err(_) => Seq::empty(),
        },
        error: None,
        selected: Set::empty(),
        last_clicked: None,
        last_click_time: None,
        shift_held: false,
        address_editing: false,
        address_input: Seq::empty(),
        address_last_click: None,
        volumes,
        menu: closed_menu(),
        clipboard: ClipboardView { paths: Seq::empty(), is_cut: false },
        pickers,
    }
}

impl Philes {
    /// The state at start; `pickers` tells whether the desktop offers
    /// pickers for an application and a folder.
    pub fn new(home: String, volumes: Vec<Volume>, read: Result<Vec<Entry>, String>, pickers: bool) -> (app:
        Self)
        ensures
            app@ == initial(home@, volumes.deep_view(), read_view(read), pickers),
    {
        let entries = match load_entries(read) {
            Ok(entries) => entries,
            Err(_) => {
                let none = Vec::new();
                proof {
                    assert(none.deep_view() =~= Seq::<EntryView>::empty());
                }
                none
            },
        };
        let app = Philes {
            current_dir: home,
            entries,
            error: None,
            selected: HashSet::new(),
            last_clicked: None,
            last_click_time: None,
            shift_held: false,
            address_editing: false,
            address_input: String::new(),
            address_last_click: None,
            volumes,
            context_menu: ContextMenu::close(),
            clipboard: Clipboard::default(),
            pickers,
        };
        app
    }
}

// ── Laws ─────────────────────────────────────────────────────────────────────

/// A single click without shift selects the clicked item alone and makes it
/// the anchor of the next shift-click; every click closes the menu.
pub proof fn lemma_click_selects_one(s: PhilesView, index: usize, now: u64)
    requires
        !s.shift_held,
        !is_double_click(s, index, now),
    ensures
        clicked(s, index, now).0.selected == Set::<usize>::empty().insert(index),
        clicked(s, index, now).0.last_clicked == Some(index),
        !clicked(s, index, now).0.menu.visible,
        clicked(s, index, now).1 == EffectView::Nothing,
{
}

/// A shift-click extends the selection to every item between the anchor and
/// the clicked item, both included, and drops nothing that was selected.
pub proof fn lemma_shift_click_extends(s: PhilesView, index: usize, now: u64)
    requires
        s.shift_held,
        !is_double_click(s, index, now),
        s.last_clicked is Some,
    ensures
        forall|i: usize| #[trigger]
            clicked(s, index, now).0.selected.contains(i) <==> (s.selected.contains(i) || (
            s.last_clicked->0 <= i <= index) || (index <= i <= s.last_clicked->0)),
{
}

/// Two clicks on the same entry less than `DOUBLE_CLICK_NANOS` apart open
/// it: a folder is loaded, a file handed to its application, and the
/// selection made by the first click stays.
pub proof fn lemma_double_click_opens(s: PhilesView, index: usize, first: u64, second: u64)
    requires
        index < s.entries.len(),
        first <= second,
        second - first < DOUBLE_CLICK_NANOS,
    ensures
        ({
            let (s1, _) = clicked(s, index, first);
            let (s2, effect) = clicked(s1, index, second);
            &&& s2.selected == s1.selected
            &&& effect == if s.entries[index as int].is_dir {
                EffectView::Load(s.entries[index as int].path)
            } else {
                EffectView::OpenFile(s.entries[index as int].path)
            }
        }),
{
}

/// A right click inside the selection keeps it, and the menu acts on every
/// selected path; a right click outside it selects that item alone.
pub proof fn lemma_right_click_targets(s: PhilesView, index: usize)
    ensures
        s.selected.contains(index) ==> right_clicked(s, Some(index)).selected == s.selected,
        !s.selected.contains(index) ==> right_clicked(s, Some(index)).selected == Set::<
            usize,
        >::empty().insert(index),
        right_clicked(s, Some(index)).menu.visible,
        right_clicked(s, Some(index)).menu.targets == selected_paths_of(
            right_clicked(s, Some(index)),
        ),
{
}

/// Reading a directory always empties the selection and closes the menu; a
/// successful read shows that directory with its listing arranged, a failed
/// one keeps the listing and shows the error.
pub proof fn lemma_navigate_resets(
    s: PhilesView,
    path: Seq<char>,
    read: Result<Seq<EntryView>, Seq<char>>,
)
    ensures
        navigated(s, path, read).selected.is_empty(),
        !navigated(s, path, read).menu.visible,
        read is Ok ==> navigated(s, path, read).current_dir == path && navigated(
            s,
            path,
            read,
        ).entries == arranged(read->Ok_0) && navigated(s, path, read).error is None,
        read is Err ==> navigated(s, path, read).current_dir == s.current_dir && navigated(
            s,
            path,
            read,
        ).entries == s.entries && navigated(s, path, read).error == Some(read->Err_0),
{
}

/// A selected path is the path of an entry that is selected.
pub open spec fn path_of_selected(entries: Seq<EntryView>, selected: Set<usize>, n: int, path: Seq<
    char,
>) -> bool {
    exists|i: int| 0 <= i < n && selected.contains(i as usize) && #[trigger] entries[i].path == path
}

/// Every path the menu acts on belongs to a selected entry of the listing.
pub proof fn lemma_selected_paths_sound(entries: Seq<EntryView>, selected: Set<usize>, n: int)
    requires
        0 <= n <= entries.len(),
    ensures
        forall|k: int|
            0 <= k < chosen_paths(entries, selected, n).len() ==> path_of_selected(
                entries,
                selected,
                n,
                #[trigger] chosen_paths(entries, selected, n)[k],
            ),
    decreases n,
{
    if n > 0 {
        lemma_selected_paths_sound(entries, selected, n - 1);
        let rest = chosen_paths(entries, selected, n - 1);
        assert forall|k: int| 0 <= k < chosen_paths(entries, selected, n).len() implies path_of_selected(
            entries,
            selected,
            n,
            #[trigger] chosen_paths(entries, selected, n)[k],
        ) by {
            if k < rest.len() {
                assert(chosen_paths(entries, selected, n)[k] == rest[k]);
                assert(path_of_selected(entries, selected, n - 1, rest[k]));
                let i = choose|i: int|
                    0 <= i < n - 1 && selected.contains(i as usize) && #[trigger] entries[i].path
                        == rest[k];
                assert(entries[i].path == rest[k]);
            } else {
                assert(chosen_paths(entries, selected, n)[k] == entries[n - 1].path);
                assert(entries[n - 1].path == entries[n - 1].path);
            }
        }
    }
}

/// The Up button, once its directory was read, shows the parent of the
/// directory it was pressed in, with nothing selected.
pub proof fn lemma_up_shows_parent(s: PhilesView, listing: Seq<EntryView>)
    requires
        parent_of(s.current_dir) is Some,
    ensures
        ({
            let (s1, effect) = updated(s, MessageView::GoUp);
            &&& s1 == s
            &&& effect == EffectView::Load(parent_of(s.current_dir)->0)
            &&& navigated(s1, parent_of(s.current_dir)->0, Ok(listing)).current_dir == parent_of(
                s.current_dir,
            )->0
            &&& navigated(s1, parent_of(s.current_dir)->0, Ok(listing)).selected.is_empty()
        }),
{
}

/// While the selection and the anchor lie within the listing, a click on an
/// entry of the listing keeps the selection within it. (A shift-click whose
/// anchor was left behind by an earlier, longer listing does select indices
/// past the end; `selected_paths` skips them.)
pub proof fn lemma_selection_in_listing(s: PhilesView, index: usize, now: u64)
    requires
        index < s.entries.len(),
        forall|i: usize| s.selected.contains(i) ==> i < s.entries.len(),
        s.last_clicked matches Some(last) ==> last < s.entries.len(),
    ensures
        forall|i: usize| #[trigger]
            clicked(s, index, now).0.selected.contains(i) ==> i < s.entries.len(),
{
}

/// A hidden menu has no targets.
pub open spec fn menu_consistent(s: PhilesView) -> bool {
    !s.menu.visible ==> s.menu.targets.len() == 0
}

/// A hidden menu never keeps targets: the state at start has none, and
/// every event, every read of a directory and every end of a job keeps it
/// so, since the menu is only ever replaced by an opened or a closed one.
pub proof fn lemma_hidden_menu_has_no_targets(
    s: PhilesView,
    message: MessageView,
    path: Seq<char>,
    read: Result<Seq<EntryView>, Seq<char>>,
    job: JobView,
    failure: Option<Seq<char>>,
    home: Seq<char>,
    volumes: Seq<VolumeView>,
    pickers: bool,
)
    requires
        menu_consistent(s),
    ensures
        menu_consistent(initial(home, volumes, read, pickers)),
        menu_consistent(updated(s, message).0),
        menu_consistent(navigated(s, path, read)),
        menu_consistent(job_finished(s, job, failure).0),
{
}

/// Pressing or releasing shift records exactly that and changes nothing
/// else, so after a release a single click selects the clicked item alone.
pub proof fn lemma_shift_follows_key(s: PhilesView, held: bool, index: usize, now: u64)
    ensures
        updated(s, MessageView::ShiftChanged(held)).0.shift_held == held,
        updated(s, MessageView::ShiftChanged(held)).0.selected == s.selected,
        updated(s, MessageView::ShiftChanged(held)).0.last_clicked == s.last_clicked,
        updated(s, MessageView::ShiftChanged(held)).1 == EffectView::Nothing,
        !is_double_click(s, index, now) ==> updated(
            updated(s, MessageView::ShiftChanged(false)).0,
            MessageView::Click { index, now },
        ).0.selected == Set::<usize>::empty().insert(index),
        !is_double_click(s, index, now) && s.last_clicked is Some ==> forall|i: usize| #[trigger]
            updated(
                updated(s, MessageView::ShiftChanged(true)).0,
                MessageView::Click { index, now },
            ).0.selected.contains(i) <==> (s.selected.contains(i) || (s.last_clicked->0 <= i
                <= index) || (index <= i <= s.last_clicked->0)),
{
}

/// When a job ends with no failure and no error of its own, the listing is
/// read again after Delete, Cut, Paste and New Folder, and nothing is asked
/// after the other actions. A failure, or the job's own error, is shown and
/// asks for nothing.
pub proof fn lemma_finish_reloads(s: PhilesView, job: JobView, failure: Option<Seq<char>>)
    ensures
        failure is None && job.error is None && (job.action == ContextAction::Delete || job.action
            == ContextAction::Cut || job.action == ContextAction::Paste || job.action
            == ContextAction::NewFolder) ==> job_finished(s, job, failure).1 == EffectView::Load(
            s.current_dir,
        ),
        failure is None && job.error is None && !(job.action == ContextAction::Delete || job.action
            == ContextAction::Cut || job.action == ContextAction::Paste || job.action
            == ContextAction::NewFolder) ==> job_finished(s, job, failure).1 == EffectView::Nothing,
        failure matches Some(m) ==> job_finished(s, job, failure).0.error == Some(m)
            && job_finished(s, job, failure).1 == EffectView::Nothing,
        failure is None && job.error is Some ==> job_finished(s, job, failure).0.error
            == job.error && job_finished(s, job, failure).1 == EffectView::Nothing,
        job_finished(s, job, failure).0.current_dir == s.current_dir,
        job_finished(s, job, failure).0.entries == s.entries,
{
}

/// New Folder from the background menu asks to create a folder in the
/// current directory; once it was created, the listing is read again.
pub proof fn lemma_new_folder_then_reload(s: PhilesView)
    ensures
        ({
            let s1 = right_clicked(s, None);
            let (s2, effect) = action_chosen(s1, ContextAction::NewFolder, true);
            &&& effect matches EffectView::Run(job) && job.steps == seq![
                StepView::CreateFolder(s.current_dir),
            ] && job_finished(s2, job, None).1 == EffectView::Load(s.current_dir)
        }),
{
}

/// A double click on the address bar opens it for editing with the current
/// directory; Enter on a text that is not a directory closes it and reports
/// the text.
pub proof fn lemma_address_editing(s: PhilesView, first: u64, second: u64)
    requires
        first <= second,
        second - first < DOUBLE_CLICK_NANOS,
    ensures
        ({
            let (s1, _) = address_clicked(s, first);
            let (s2, effect) = address_clicked(s1, second);
            let (s3, _) = address_submitted(s2, false);
            &&& s2.address_editing
            &&& s2.address_input == s.current_dir
            &&& effect == EffectView::FocusAddressBar
            &&& !s3.address_editing
            &&& s3.error == Some(not_a_directory(s.current_dir))
        }),
{
}

} // verus!
