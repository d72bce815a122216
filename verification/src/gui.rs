//! What the window shows, decided from the state: the status line, the
//! sidebar, the breadcrumbs, the grid and the context menu. Drawing them is
//! the window's business.

use vstd::prelude::*;

use crate::actions::{background_action_list, item_action_list, ContextAction};
use crate::app::{Philes, PhilesView};
use crate::decimal::{decimal, decimal_string};
use crate::files::{ancestor_paths, ancestors, truncate, truncated};
use crate::paths::{file_name_of, path_eq, path_file_name, paths_equal};

verus! {

/// Whether two texts are equal.
pub fn same_text(a: &str, b: &str) -> (same: bool)
    ensures
        same == (a@ == b@),
{
    let n: usize = a.unicode_len();
    if n != b.unicode_len() {
        return false;
    }
    let mut i: usize = 0;
    while i < n
        invariant
            n == a@.len(),
            n == b@.len(),
            i <= n,
            forall|j: int| 0 <= j < i ==> a@[j] == b@[j],
        decreases n - i,
    {
        if a.get_char(i) != b.get_char(i) {
            return false;
        }
        i = i + 1;
    }
    proof {
        assert(a@ =~= b@);
    }
    true
}

/// Whether two paths are equal as `Path`s.
pub fn is_same_path(a: &str, b: &str) -> (same: bool)
    ensures
        same == paths_equal(a@, b@),
{
    path_eq(a, b)
}

// ── Sidebar ──────────────────────────────────────────────────────────────────

/// The glyph shown before a place of the sidebar, chosen by its label.
pub open spec fn sidebar_icon_of(label: Seq<char>) -> Seq<char> {
    if label == "Home"@ {
        "[~]"@
    } else if label == "Desktop"@ {
        "[D]"@
    } else if label == "Documents"@ {
        "[Doc]"@
    } else if label == "Downloads"@ {
        "[v]"@
    } else if label == "Music"@ {
        "[M]"@
    } else if label == "Pictures"@ {
        "[P]"@
    } else if label == "Videos"@ {
        "[>]"@
    } else if label == "/ (root)"@ {
        "[/]"@
    } else {
        "[Drive]"@
    }
}

/// The glyph shown before a place of the sidebar.
pub fn sidebar_icon(label: &str) -> (icon: &'static str)
    ensures
        icon@ == sidebar_icon_of(label@),
{
    if same_text(label, "Home") {
        "[~]"
    } else if same_text(label, "Desktop") {
        "[D]"
    } else if same_text(label, "Documents") {
        "[Doc]"
    } else if same_text(label, "Downloads") {
        "[v]"
    } else if same_text(label, "Music") {
        "[M]"
    } else if same_text(label, "Pictures") {
        "[P]"
    } else if same_text(label, "Videos") {
        "[>]"
    } else if same_text(label, "/ (root)") {
        "[/]"
    } else {
        "[Drive]"
    }
}

/// A line of the sidebar.
pub enum SidebarItem {
    /// A section title.
    Heading(&'static str),
    /// A little space before a section title.
    Gap,
    /// The volume at this index, highlighted when it is the current directory.
    Place { index: usize, active: bool },
}

/// What the contracts see of a sidebar line.
pub enum SidebarItemView {
    Heading(Seq<char>),
    Gap,
    Place { index: usize, active: bool },
}

impl DeepView for SidebarItem {
    type V = SidebarItemView;

    open spec fn deep_view(&self) -> SidebarItemView {
        match self {
            SidebarItem::Heading(t) => SidebarItemView::Heading(t@),
            SidebarItem::Gap => SidebarItemView::Gap,
            SidebarItem::Place { index, active } => SidebarItemView::Place {
                index: *index,
                active: *active,
            },
        }
    }
}

/// The volumes after the seventh are devices: a gap and a title separate
/// them from the places above.
pub open spec fn device_split() -> int {
    6
}

/// The sidebar lines for the first `n` volumes.
pub open spec fn sidebar_lines(s: PhilesView, n: int) -> Seq<SidebarItemView>
    decreases n,
{
    if n <= 0 {
        seq![SidebarItemView::Heading("PLACES"@)]
    } else {
        let i: int = n - 1;
        let lines = sidebar_lines(s, i).push(
            SidebarItemView::Place {
                index: i as usize,
                active: paths_equal(s.current_dir, s.volumes[i].path),
            },
        );
        if i == device_split() {
            lines.push(SidebarItemView::Gap).push(SidebarItemView::Heading("DEVICES"@))
        } else {
            lines
        }
    }
}

/// The lines of the sidebar, top to bottom.
pub fn sidebar(app: &Philes) -> (lines: Vec<SidebarItem>)
    ensures
        lines.deep_view() == sidebar_lines(app@, app@.volumes.len() as int),
{
    let mut lines: Vec<SidebarItem> = Vec::new();
    lines.push(SidebarItem::Heading("PLACES"));
    proof {
        assert(lines.deep_view() =~= sidebar_lines(app@, 0));
    }
    let mut i: usize = 0;
    while i < app.volumes.len()
        invariant
            i <= app.volumes.len(),
            lines.deep_view() == sidebar_lines(app@, i as int),
        decreases app.volumes.len() - i,
    {
        let ghost before = lines.deep_view();
        let active = is_same_path(app.current_dir.as_str(), app.volumes[i].path.as_str());
        lines.push(SidebarItem::Place { index: i, active });
        if i == 6 {
            lines.push(SidebarItem::Gap);
            lines.push(SidebarItem::Heading("DEVICES"));
        }
        proof {
            let l = sidebar_lines(app@, i as int).push(
                SidebarItemView::Place {
                    index: i,
                    active: paths_equal(app@.current_dir, app@.volumes[i as int].path),
                },
            );
            if i == 6 {
                assert(lines.deep_view() =~= l.push(SidebarItemView::Gap).push(
                    SidebarItemView::Heading("DEVICES"@),
                ));
            } else {
                assert(lines.deep_view() =~= l);
            }
        }
        i = i + 1;
    }
    lines
}

// ── Status line ──────────────────────────────────────────────────────────────

/// The status line: how many entries are selected, or, with none selected,
/// how many there are.
pub open spec fn status_of(selected: nat, items: nat) -> Seq<char> {
    if selected > 0 {
        decimal(selected) + " selected"@
    } else {
        decimal(items) + " items"@
    }
}

/// The error line under the grid.
pub open spec fn error_line_of(error: Seq<char>) -> Seq<char> {
    "[ERROR] "@ + error
}

/// The status line of the header.
pub fn status_text(app: &Philes) -> (status: String)
    ensures
        status@ == status_of(app@.selected.len(), app@.entries.len()),
{
    let count: usize = app.selected.len();
    if count > 0 {
        let mut status = decimal_string(count);
        status.append(" selected");
        status
    } else {
        let mut status = decimal_string(app.entries.len());
        status.append(" items");
        status
    }
}

/// The error line under the grid, when there is an error.
pub fn error_line(app: &Philes) -> (line: Option<String>)
    ensures
        match (app@.error, line) {
            (Some(e), Some(l)) => l@ == error_line_of(e),
            (None, None) => true,
            _ => false,
        },
{
    match &app.error {
        Some(e) => {
            let mut line = String::from_str("[ERROR] ");
            line.append(e.as_str());
            Some(line)
        },
        None => None,
    }
}

// ── Breadcrumbs ──────────────────────────────────────────────────────────────

/// One crumb of the address bar: a label, the directory it leads to, and
/// whether it is the current directory (shown as plain text).
pub struct Crumb {
    pub label: String,
    pub path: String,
    pub is_last: bool,
}

/// What the contracts see of a crumb.
pub struct CrumbView {
    pub label: Seq<char>,
    pub path: Seq<char>,
    pub is_last: bool,
}

impl DeepView for Crumb {
    type V = CrumbView;

    open spec fn deep_view(&self) -> CrumbView {
        CrumbView { label: self.label@, path: self.path@, is_last: self.is_last }
    }
}

/// The label of a crumb: `/` for the root, otherwise the last component of
/// the path, or the whole path when it has none.
pub open spec fn crumb_label(path: Seq<char>) -> Seq<char> {
    if paths_equal(path, "/"@) {
        "/"@
    } else {
        match file_name_of(path) {
            Some(name) => name,
            None => path,
        }
    }
}

/// The crumbs for the directory `dir`, outermost first.
pub open spec fn crumbs_of(dir: Seq<char>) -> Seq<CrumbView> {
    let chain = ancestors(dir);
    Seq::new(
        chain.len(),
        |i: int| CrumbView { label: crumb_label(chain[i]), path: chain[i], is_last: i == chain.len() - 1 },
    )
}

fn crumb_label_text(path: &String) -> (label: String)
    ensures
        label@ == crumb_label(path@),
{
    if is_same_path(path.as_str(), "/") {
        String::from_str("/")
    } else {
        match path_file_name(path.as_str()) {
            Some(name) => name,
            None => path.clone(),
        }
    }
}

/// The breadcrumbs of the current directory.
fn breadcrumbs(app: &Philes) -> (crumbs: Vec<Crumb>)
    ensures
        crumbs.deep_view() == crumbs_of(app@.current_dir),
{
    let chain = ancestor_paths(&app.current_dir);
    let ghost c = chain.deep_view();
    let mut crumbs: Vec<Crumb> = Vec::new();
    let mut i: usize = 0;
    while i < chain.len()
        invariant
            c == chain.deep_view(),
            c == ancestors(app@.current_dir),
            i <= chain.len(),
            crumbs.deep_view() =~= crumbs_of(app@.current_dir).take(i as int),
        decreases chain.len() - i,
    {
        let ghost before = crumbs.deep_view();
        let label = crumb_label_text(&chain[i]);
        crumbs.push(Crumb { label, path: chain[i].clone(), is_last: i + 1 == chain.len() });
        proof {
            assert(crumbs.deep_view() =~= before.push(crumbs.deep_view().last()));
        }
        i = i + 1;
    }
    crumbs
}

/// The address bar: the text field while the address is edited, the
/// breadcrumbs otherwise.
pub enum AddressBar {
    Editing(String),
    Crumbs(Vec<Crumb>),
}

pub enum AddressBarView {
    Editing(Seq<char>),
    Crumbs(Seq<CrumbView>),
}

impl DeepView for AddressBar {
    type V = AddressBarView;

    open spec fn deep_view(&self) -> AddressBarView {
        match self {
            AddressBar::Editing(t) => AddressBarView::Editing(t@),
            AddressBar::Crumbs(c) => AddressBarView::Crumbs(c.deep_view()),
        }
    }
}

pub open spec fn address_bar_of(s: PhilesView) -> AddressBarView {
    if s.address_editing {
        AddressBarView::Editing(s.address_input)
    } else {
        AddressBarView::Crumbs(crumbs_of(s.current_dir))
    }
}

/// What the address bar shows.
pub fn address_bar(app: &Philes) -> (bar: AddressBar)
    ensures
        bar.deep_view() == address_bar_of(app@),
{
    if app.address_editing {
        AddressBar::Editing(app.address_input.clone())
    } else {
        AddressBar::Crumbs(breadcrumbs(app))
    }
}

// ── File grid ────────────────────────────────────────────────────────────────

/// The longest name shown under an icon before it is shortened.
pub const NAME_WIDTH: usize = 14;

/// One cell of the grid.
pub struct GridCell {
    pub index: usize,
    pub label: String,
    pub is_dir: bool,
    pub selected: bool,
}

/// One row of the grid, and how many empty cells pad it to full width.
pub struct GridRow {
    pub cells: Vec<GridCell>,
    pub fillers: usize,
}

pub struct GridCellView {
    pub index: usize,
    pub label: Seq<char>,
    pub is_dir: bool,
    pub selected: bool,
}

pub struct GridRowView {
    pub cells: Seq<GridCellView>,
    pub fillers: nat,
}

impl DeepView for GridCell {
    type V = GridCellView;

    open spec fn deep_view(&self) -> GridCellView {
        GridCellView {
            index: self.index,
            label: self.label@,
            is_dir: self.is_dir,
            selected: self.selected,
        }
    }
}

impl DeepView for GridRow {
    type V = GridRowView;

    open spec fn deep_view(&self) -> GridRowView {
        GridRowView { cells: self.cells.deep_view(), fillers: self.fillers as nat }
    }
}

/// The cell of entry `index`: its name shortened to `NAME_WIDTH`, its kind,
/// and whether it is selected.
pub open spec fn cell_of(s: PhilesView, index: int) -> GridCellView {
    GridCellView {
        index: index as usize,
        label: truncated(s.entries[index].name, NAME_WIDTH as int),
        is_dir: s.entries[index].is_dir,
        selected: s.selected.contains(index as usize),
    }
}

/// The row that starts at entry `start`: up to `cols` cells, padded with
/// empty ones when the listing ends before the row is full.
pub open spec fn row_at(s: PhilesView, cols: int, start: int) -> GridRowView {
    let len: int = if start + cols <= s.entries.len() {
        cols
    } else {
        s.entries.len() - start
    };
    GridRowView {
        cells: Seq::new(len as nat, |c: int| cell_of(s, start + c)),
        fillers: (cols - len) as nat,
    }
}

/// The rows of the grid from entry `start` on, `cols` entries to a row.
pub open spec fn rows_from(s: PhilesView, cols: int, start: int) -> Seq<GridRowView>
    decreases s.entries.len() - start,
{
    if cols <= 0 || start < 0 || start >= s.entries.len() {
        Seq::empty()
    } else if start + cols >= s.entries.len() {
        seq![row_at(s, cols, start)]
    } else {
        seq![row_at(s, cols, start)] + rows_from(s, cols, start + cols)
    }
}

fn grid_row(app: &Philes, cols: usize, start: usize) -> (row: GridRow)
    requires
        cols > 0,
        start < app.entries.len(),
    ensures
        row.deep_view() == row_at(app@, cols as int, start as int),
{
    let end: usize = if cols <= app.entries.len() - start {
        start + cols
    } else {
        app.entries.len()
    };
    let mut cells: Vec<GridCell> = Vec::new();
    let mut i: usize = start;
    while i < end
        invariant
            start <= i <= end,
            end <= app.entries.len(),
            end - start <= cols,
            cells.deep_view() =~= Seq::new(
                (i - start) as nat,
                |c: int| cell_of(app@, start + c),
            ),
        decreases end - i,
    {
        let ghost before = cells.deep_view();
        let entry = &app.entries[i];
        let label = truncate(entry.name.as_str(), NAME_WIDTH);
        cells.push(
            GridCell { index: i, label, is_dir: entry.is_dir, selected: app.selected.contains(&i) },
        );
        proof {
            assert(cells.deep_view() =~= before.push(cell_of(app@, i as int)));
        }
        i = i + 1;
    }
    let fillers: usize = cols - (end - start);
    GridRow { cells, fillers }
}

/// The rows of the file grid, `cols` cells to a row.
pub fn file_grid(app: &Philes, cols: usize) -> (rows: Vec<GridRow>)
    requires
        cols > 0,
    ensures
        rows.deep_view() == rows_from(app@, cols as int, 0),
{
    let mut rows: Vec<GridRow> = Vec::new();
    let mut start: usize = 0;
    proof {
        assert(rows.deep_view() + rows_from(app@, cols as int, 0) =~= rows_from(
            app@,
            cols as int,
            0,
        ));
    }
    while start < app.entries.len()
        invariant
            cols > 0,
            rows.deep_view() + rows_from(app@, cols as int, start as int) == rows_from(
                app@,
                cols as int,
                0,
            ),
        decreases app.entries.len() - start,
    {
        let ghost before = rows.deep_view();
        let row = grid_row(app, cols, start);
        rows.push(row);
        proof {
            assert(rows.deep_view() =~= before.push(row_at(app@, cols as int, start as int)));
        }
        if cols >= app.entries.len() - start {
            proof {
                assert(rows_from(app@, cols as int, start as int) =~= seq![
                    row_at(app@, cols as int, start as int),
                ]);
                assert(before + rows_from(app@, cols as int, start as int) =~= rows.deep_view());
            }
            return rows;
        }
        proof {
            assert(rows_from(app@, cols as int, start as int) =~= seq![
                row_at(app@, cols as int, start as int),
            ] + rows_from(app@, cols as int, start + cols));
            assert(before + rows_from(app@, cols as int, start as int) =~= rows.deep_view()
                + rows_from(app@, cols as int, start + cols));
        }
        start = start + cols;
    }
    proof {
        assert(rows.deep_view() + rows_from(app@, cols as int, start as int) =~= rows.deep_view());
    }
    rows
}

/// The cells of a grid's rows, read row by row.
pub open spec fn grid_cells(rows: Seq<GridRowView>) -> Seq<GridCellView>
    decreases rows.len(),
{
    if rows.len() == 0 {
        Seq::empty()
    } else {
        rows[0].cells + grid_cells(rows.drop_first())
    }
}

proof fn lemma_rows_from_layout(s: PhilesView, cols: int, start: int)
    requires
        cols > 0,
        0 <= start <= s.entries.len(),
    ensures
        grid_cells(rows_from(s, cols, start)) == Seq::new(
            (s.entries.len() - start) as nat,
            |k: int| cell_of(s, start + k),
        ),
        forall|r: int|
            0 <= r < rows_from(s, cols, start).len() ==> (#[trigger] rows_from(
                s,
                cols,
                start,
            )[r]).cells.len() + rows_from(s, cols, start)[r].fillers == cols && rows_from(
                s,
                cols,
                start,
            )[r].cells.len() > 0,
        forall|r: int|
            0 <= r < rows_from(s, cols, start).len() - 1 ==> (#[trigger] rows_from(
                s,
                cols,
                start,
            )[r]).fillers == 0,
    decreases s.entries.len() - start,
{
    let rows = rows_from(s, cols, start);
    if start < s.entries.len() {
        let row = row_at(s, cols, start);
        if start + cols < s.entries.len() {
            let rest = rows_from(s, cols, start + cols);
            lemma_rows_from_layout(s, cols, start + cols);
            assert(rows == seq![row] + rest);
            assert(rows.drop_first() =~= rest);
            assert(grid_cells(rows) =~= Seq::new(
                (s.entries.len() - start) as nat,
                |k: int| cell_of(s, start + k),
            )) by {
                assert(grid_cells(rows) == row.cells + grid_cells(rest));
                assert forall|k: int| 0 <= k < s.entries.len() - start - cols implies grid_cells(
                    rest,
                )[k] == cell_of(s, start + cols + k) by {}
            }
            assert forall|r: int| 0 <= r < rows.len() implies (#[trigger] rows[r]).cells.len()
                + rows[r].fillers == cols && rows[r].cells.len() > 0 by {
                if r > 0 {
                    assert(rows[r] == rest[r - 1]);
                }
            }
            assert forall|r: int| 0 <= r < rows.len() - 1 implies (#[trigger] rows[r]).fillers
                == 0 by {
                if r > 0 {
                    assert(rows[r] == rest[r - 1]);
                }
            }
        } else {
            assert(rows == seq![row]);
            assert(rows.drop_first() =~= Seq::<GridRowView>::empty());
            assert(grid_cells(rows) =~= Seq::new(
                (s.entries.len() - start) as nat,
                |k: int| cell_of(s, start + k),
            )) by {
                assert(grid_cells(rows) == row.cells + grid_cells(Seq::<GridRowView>::empty()));
            }
        }
    } else {
        assert(grid_cells(rows) =~= Seq::new(
            (s.entries.len() - start) as nat,
            |k: int| cell_of(s, start + k),
        ));
    }
}

/// The grid shows every entry once, in the order of the listing: read row by
/// row, its cells are the cells of the entries. Every row has `cols` places,
/// its cells then empty fillers, and only the last row has fillers.
pub proof fn lemma_grid_layout(s: PhilesView, cols: int)
    requires
        cols > 0,
    ensures
        grid_cells(rows_from(s, cols, 0)).len() == s.entries.len(),
        forall|k: int|
            0 <= k < s.entries.len() ==> #[trigger] grid_cells(rows_from(s, cols, 0))[k] == cell_of(
                s,
                k,
            ),
        forall|r: int|
            0 <= r < rows_from(s, cols, 0).len() ==> (#[trigger] rows_from(s, cols, 0)[r]).cells.len()
                + rows_from(s, cols, 0)[r].fillers == cols,
        forall|r: int|
            0 <= r < rows_from(s, cols, 0).len() - 1 ==> (#[trigger] rows_from(
                s,
                cols,
                0,
            )[r]).fillers == 0,
{
    lemma_rows_from_layout(s, cols, 0);
}

// ── Context menu ─────────────────────────────────────────────────────────────

/// The menu was opened on the background: its one target is the current
/// directory.
pub open spec fn on_background(s: PhilesView) -> bool {
    s.menu.targets.len() == 1 && paths_equal(s.menu.targets[0], s.current_dir)
}

/// What the shown menu lists, and after which entry a separator is drawn.
pub struct MenuLayout {
    pub actions: Vec<ContextAction>,
    pub separator_after: Option<usize>,
}

/// The menu's entries when it is shown: the background actions on the
/// background, otherwise the item actions with a separator after the second.
pub open spec fn menu_layout_of(s: PhilesView) -> Option<(Seq<ContextAction>, Option<usize>)> {
    if !s.menu.visible {
        None
    } else if on_background(s) {
        Some((background_action_list(), None))
    } else {
        Some((item_action_list(), Some(1usize)))
    }
}

/// The context menu's entries, when it is shown.
pub fn context_menu_overlay(app: &Philes) -> (layout: Option<MenuLayout>)
    ensures
        match (menu_layout_of(app@), layout) {
            (Some((actions, separator)), Some(l)) => l.actions@ == actions
                && l.separator_after == separator,
            (None, None) => true,
            _ => false,
        },
{
    if !app.context_menu.visible {
        return None;
    }
    let targets = &app.context_menu.targets;
    let is_background = targets.len() == 1 && is_same_path(
        targets[0].as_str(),
        app.current_dir.as_str(),
    );
    if is_background {
        Some(MenuLayout { actions: ContextAction::background_actions(), separator_after: None })
    } else {
        Some(MenuLayout { actions: ContextAction::item_actions(), separator_after: Some(1) })
    }
}

// ── Top-level view ───────────────────────────────────────────────────────────

/// Everything the window shows, as decided by the state.
pub struct Screen {
    pub status: String,
    pub address: AddressBar,
    pub sidebar: Vec<SidebarItem>,
    pub grid: Vec<GridRow>,
    pub error_line: Option<String>,
    pub menu: Option<MenuLayout>,
}

/// What the window shows, with `cols` cells to a row of the grid.
pub fn view(app: &Philes, cols: usize) -> (screen: Screen)
    requires
        cols > 0,
    ensures
        screen.status@ == status_of(app@.selected.len(), app@.entries.len()),
        screen.address.deep_view() == address_bar_of(app@),
        screen.sidebar.deep_view() == sidebar_lines(app@, app@.volumes.len() as int),
        screen.grid.deep_view() == rows_from(app@, cols as int, 0),
        match (app@.error, screen.error_line) {
            (Some(e), Some(l)) => l@ == error_line_of(e),
            (None, None) => true,
            _ => false,
        },
        match (menu_layout_of(app@), screen.menu) {
            (Some((actions, separator)), Some(l)) => l.actions@ == actions && l.separator_after
                == separator,
            (None, None) => true,
            _ => false,
        },
{
    Screen {
        status: status_text(app),
        address: address_bar(app),
        sidebar: sidebar(app),
        grid: file_grid(app, cols),
        error_line: error_line(app),
        menu: context_menu_overlay(app),
    }
}

// ── Laws ─────────────────────────────────────────────────────────────────────

/// A right click on the background opens the menu of background actions; a
/// right click on an item, unless its only target is the current directory
/// itself, opens the menu of item actions.
pub proof fn lemma_menu_follows_click(s: PhilesView, index: usize)
    ensures
        menu_layout_of(crate::app::right_clicked(s, None)) == Some(
            (background_action_list(), None::<usize>),
        ),
        !on_background(crate::app::right_clicked(s, Some(index))) ==> menu_layout_of(crate::app::right_clicked(s, Some(index))) == Some(
            (item_action_list(), Some(1usize)),
        ),
{
}

/// The status line counts the selection when there is one, and the listing
/// otherwise.
pub proof fn lemma_status_counts(s: PhilesView)
    ensures
        s.selected.len() > 0 ==> status_of(s.selected.len(), s.entries.len()) == decimal(
            s.selected.len(),
        ) + " selected"@,
        s.selected.len() == 0 ==> status_of(s.selected.len(), s.entries.len()) == decimal(
            s.entries.len(),
        ) + " items"@,
{
}

} // verus!
