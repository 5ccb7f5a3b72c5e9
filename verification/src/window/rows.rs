//! The rows of the sidebar: dragging workspaces and tabs, and renaming in place.
use vstd::prelude::*;
use vstd::string::*;

use crate::split_tree::{LayoutNodeState, LayoutView};
use crate::text::{
    chars_of, contains_char, copy_optional, decimal_text, digit_value, lemma_decimal_digits,
    lemma_number_written_and_read, number_in, optional_str, optional_text, parse_number, same,
    trim, trimmed,
};
use crate::window::folder::{abbreviate_path, abbreviated, workspace_path_visible};
use crate::window::session::{is_uuid, new_workspace_id};
use crate::window::sidebar::{between, lies_between};
use crate::window::workspaces::{
    closed, first_where, has_id, shown_id, Workspace, WorkspaceView, Workspaces,
};

verus! {

/// Milliseconds that something dragged has to rest on a row to open its
/// workspace.
pub const HOVER_SWITCH_DELAY_MS: u64 = 500;

/// How a row shows where a drop would go.
#[derive(Clone, Copy, Debug, PartialEq, Eq, Structural)]
pub enum DropHighlight {
    Nothing,
    Above,
    Below,
    /// The whole row: a tab is dragged.
    Tab,
}

/// How the row of a workspace shows where a drop would go: beside it for another
/// workspace, into it for a tab.
pub fn drop_highlight(dragged_workspace: Option<&str>, row_workspace: &str, upper_half: bool) -> (r:
    DropHighlight)
    ensures
        r == (match optional_str(dragged_workspace) {
            None => DropHighlight::Tab,
            Some(id) => if id == row_workspace@ {
                DropHighlight::Nothing
            } else if upper_half {
                DropHighlight::Above
            } else {
                DropHighlight::Below
            },
        }),
{
    match dragged_workspace {
        None => DropHighlight::Tab,
        Some(id) => if same(id, row_workspace) {
            DropHighlight::Nothing
        } else if upper_half {
            DropHighlight::Above
        } else {
            DropHighlight::Below
        },
    }
}

/// The class that shows where a drop would go.
pub fn drop_highlight_class(highlight: DropHighlight) -> (r: Option<&'static str>)
    ensures
        match highlight {
            DropHighlight::Nothing => r is None,
            DropHighlight::Above => r matches Some(class) && class@ == "limux-drop-above"@,
            DropHighlight::Below => r matches Some(class) && class@ == "limux-drop-below"@,
            DropHighlight::Tab => r matches Some(class) && class@ == "limux-tab-drop-target"@,
        },
{
    match highlight {
        DropHighlight::Nothing => None,
        DropHighlight::Above => Some("limux-drop-above"),
        DropHighlight::Below => Some("limux-drop-below"),
        DropHighlight::Tab => Some("limux-tab-drop-target"),
    }
}

/// Something dragged over a row.
#[derive(Clone, Copy, Debug, PartialEq, Eq, Structural)]
pub struct RowHover {
    /// The timer that opens the workspace runs.
    pub timer: bool,
    /// It was dropped.
    pub drop_handled: bool,
}

impl RowHover {
    pub fn new() -> (r: Self)
        ensures
            r == (RowHover { timer: false, drop_handled: false }),
    {
        RowHover { timer: false, drop_handled: false }
    }

    /// A move over the row. Says whether the timer is to be started.
    pub fn motion(&mut self) -> (r: bool)
        ensures
            r == !old(self).timer,
            *final(self) == (RowHover { timer: true, drop_handled: false }),
    {
        self.drop_handled = false;
        let start = !self.timer;
        self.timer = true;
        start
    }

    /// It leaves the row. Says whether the timer is to be stopped.
    pub fn leave(&mut self) -> (r: bool)
        ensures
            r == old(self).timer,
            *final(self) == (RowHover { timer: false, ..*old(self) }),
    {
        let running = self.timer;
        self.timer = false;
        running
    }

    /// It is dropped on the row. Says whether the timer is to be stopped.
    pub fn dropped(&mut self) -> (r: bool)
        ensures
            r == old(self).timer,
            *final(self) == (RowHover { timer: false, drop_handled: true }),
    {
        self.drop_handled = true;
        let running = self.timer;
        self.timer = false;
        running
    }

    /// The timer ran out. Says whether the workspace is to be opened.
    pub fn timer_fired(&mut self) -> (r: bool)
        ensures
            r == !old(self).drop_handled,
            *final(self) == (RowHover { timer: false, ..*old(self) }),
    {
        self.timer = false;
        !self.drop_handled
    }
}

/// A tab that is dragged: the pane that it comes from, and the tab.
#[derive(Debug, PartialEq)]
pub struct DraggedTab {
    pub pane_id: u32,
    pub tab_id: String,
}

/// The first position of a character.
pub open spec fn position_of(s: Seq<char>, c: char) -> Option<int>
    decreases s.len(),
{
    if s.len() == 0 {
        None
    } else if s[0] == c {
        Some(0)
    } else {
        match position_of(s.skip(1), c) {
            Some(i) => Some(i + 1),
            None => None,
        }
    }
}

/// What the first position of a character is.
pub proof fn lemma_position_of(s: Seq<char>, c: char)
    ensures
        match position_of(s, c) {
            Some(i) => 0 <= i < s.len() && s[i] == c && !s.take(i).contains(c),
            None => !s.contains(c),
        },
    decreases s.len(),
{
    if s.len() > 0 && s[0] != c {
        lemma_position_of(s.skip(1), c);
        match position_of(s.skip(1), c) {
            Some(i) => {
                assert(s.skip(1)[i] == s[i + 1]);
                assert forall|j: int| 0 <= j < i + 1 implies #[trigger] s.take(i + 1)[j] != c by {
                    if j > 0 {
                        assert(s.skip(1).take(i)[j - 1] == s[j]);
                    }
                }
            },
            None => {
                assert forall|j: int| 0 <= j < s.len() implies #[trigger] s[j] != c by {
                    if j > 0 {
                        assert(s.skip(1)[j - 1] == s[j]);
                    }
                }
            },
        }
    }
}

proof fn lemma_position_is(s: Seq<char>, c: char, i: int)
    requires
        0 <= i < s.len(),
        s[i] == c,
        forall|j: int| 0 <= j < i ==> s[j] != c,
    ensures
        position_of(s, c) == Some(i),
{
    lemma_position_of(s, c);
    match position_of(s, c) {
        Some(k) => {
            if i < k {
                assert(s.take(k)[i] == c);
            }
        },
        None => {
            assert(s.contains(c));
        },
    }
}

/// The pane and the tab that a dragged text names: a number and the rest, with a
/// colon between.
pub open spec fn tab_in(payload: Seq<char>) -> Option<(u32, Seq<char>)> {
    match position_of(payload, ':') {
        Some(i) => match number_in(payload.take(i)) {
            Some(pane) => Some((pane, payload.skip(i + 1))),
            None => None,
        },
        None => None,
    }
}

#[verifier::loop_isolation(false)]
fn colon_position(payload: &str) -> (r: Option<usize>)
    ensures
        position_of(payload@, ':') == (match r {
            Some(i) => Some(i as int),
            None => None,
        }),
        r matches Some(i) ==> i < payload@.len(),
{
    let chars = chars_of(payload);
    let mut i: usize = 0;
    while i < chars.len()
        invariant
            i <= chars@.len(),
            forall|j: int| 0 <= j < i ==> chars@[j] != ':',
        decreases chars@.len() - i,
    {
        if chars[i] == ':' {
            proof {
                lemma_position_is(payload@, ':', i as int);
            }
            return Some(i);
        }
        i += 1;
    }
    proof {
        lemma_position_of(payload@, ':');
    }
    None
}

/// The pane and the tab that a dragged text names.
pub fn parse_dragged_tab(payload: &str) -> (r: Option<DraggedTab>)
    ensures
        tab_in(payload@) == (match r {
            Some(tab) => Some((tab.pane_id, tab.tab_id@)),
            None => None,
        }),
{
    match colon_position(payload) {
        Some(i) => {
            let length: usize = payload.unicode_len();
            let pane = payload.substring_char(0, i);
            let tab = payload.substring_char(i + 1, length);
            assert(pane@ =~= payload@.take(i as int));
            assert(tab@ =~= payload@.skip(i + 1));
            match parse_number(pane) {
                Some(pane_id) => Some(DraggedTab { pane_id, tab_id: tab.to_owned() }),
                None => None,
            }
        },
        None => None,
    }
}

/// What a drop on the row of a workspace does.
#[derive(Debug, PartialEq)]
pub enum RowDrop {
    Nothing,
    /// A tab moves into the workspace.
    MoveTab(DraggedTab),
    /// A workspace moves beside this one.
    Reorder { source_id: String, below: bool },
}

/// What a drop on the row of a workspace does. A text with a colon is a tab, any
/// other the identifier of a workspace.
pub fn row_drop(payload: &str, row_workspace: &str, lower_half: bool) -> (r: RowDrop)
    ensures
        if payload@.contains(':') {
            match tab_in(payload@) {
                Some(tab) => r matches RowDrop::MoveTab(t) && t.pane_id == tab.0 && t.tab_id@
                    == tab.1,
                None => r is Nothing,
            }
        } else if payload@ == row_workspace@ {
            r is Nothing
        } else {
            r matches RowDrop::Reorder { source_id, below } && source_id@ == payload@ && below
                == lower_half
        },
        r matches RowDrop::Reorder { source_id, below } ==> below == lower_half && source_id@
            != row_workspace@,
        r is MoveTab ==> payload@.contains(':'),
{
    if contains_char(payload, ':') {
        return match parse_dragged_tab(payload) {
            Some(tab) => RowDrop::MoveTab(tab),
            None => RowDrop::Nothing,
        };
    }
    if same(payload, row_workspace) {
        return RowDrop::Nothing;
    }
    RowDrop::Reorder { source_id: payload.to_owned(), below: lower_half }
}

/// What a drop on the button for new workspaces does.
#[derive(Debug, PartialEq)]
pub enum ButtonDrop {
    Nothing,
    /// A tab gets a workspace of its own.
    OpenTab(DraggedTab),
    /// A workspace is closed.
    CloseWorkspace(String),
}

/// What a drop on the button for new workspaces does.
pub fn button_drop(payload: &str) -> (r: ButtonDrop)
    ensures
        if payload@.contains(':') {
            match tab_in(payload@) {
                Some(tab) => r matches ButtonDrop::OpenTab(t) && t.pane_id == tab.0 && t.tab_id@
                    == tab.1,
                None => r is Nothing,
            }
        } else {
            r matches ButtonDrop::CloseWorkspace(id) && id@ == payload@
        },
{
    if contains_char(payload, ':') {
        return match parse_dragged_tab(payload) {
            Some(tab) => ButtonDrop::OpenTab(tab),
            None => ButtonDrop::Nothing,
        };
    }
    ButtonDrop::CloseWorkspace(payload.to_owned())
}

/// The workspace that a dragged tab comes from.
#[derive(Debug, PartialEq)]
pub struct WorkspaceSeedSource {
    pub workspace_cwd: Option<String>,
    pub workspace_folder_path: Option<String>,
}

/// What a workspace for a dragged tab starts with.
#[derive(Debug, PartialEq)]
pub struct TabDragWorkspaceSeed {
    pub name: String,
    pub cwd: Option<String>,
    pub folder_path: Option<String>,
}

pub open spec fn first_of(
    a: Option<Seq<char>>,
    b: Option<Seq<char>>,
) -> Option<Seq<char>> {
    match a {
        Some(_) => a,
        None => b,
    }
}

/// A text, if it is more than white space.
pub open spec fn not_blank(s: Option<Seq<char>>) -> Option<Seq<char>> {
    match s {
        Some(t) => if trimmed(t).len() > 0 {
            s
        } else {
            None
        },
        None => None,
    }
}

fn unless_blank(s: Option<String>) -> (r: Option<String>)
    ensures
        optional_text(r) == not_blank(optional_text(s)),
{
    match s {
        Some(text) => if trim(text.as_str()).is_empty() {
            None
        } else {
            Some(text)
        },
        None => None,
    }
}

/// What a workspace for a dragged tab starts with: the tab's title as its name,
/// and the tab's directory, or else what its old workspace had.
pub fn tab_drag_workspace_seed(
    source: &WorkspaceSeedSource,
    title: &str,
    tab_cwd: &Option<String>,
) -> (r: TabDragWorkspaceSeed)
    ensures
        r.name@ == (if trimmed(title@).len() > 0 {
            trimmed(title@)
        } else {
            "Workspace"@
        }),
        optional_text(r.cwd) == first_of(
            optional_text(*tab_cwd),
            first_of(
                optional_text(source.workspace_folder_path),
                optional_text(source.workspace_cwd),
            ),
        ),
        optional_text(r.folder_path) == not_blank(
            first_of(
                not_blank(optional_text(*tab_cwd)),
                optional_text(source.workspace_folder_path),
            ),
        ),
        r.name@.len() > 0,
        *tab_cwd is Some ==> optional_text(r.cwd) == optional_text(*tab_cwd),
        *tab_cwd is None && source.workspace_folder_path is Some ==> optional_text(r.cwd)
            == optional_text(source.workspace_folder_path),
        *tab_cwd is None && source.workspace_folder_path is None ==> optional_text(r.cwd)
            == optional_text(source.workspace_cwd),
{
    proof {
        reveal_strlit("Workspace");
    }
    let name = trim(title);
    let name = if name.is_empty() {
        "Workspace"
    } else {
        name
    };
    let cwd = match tab_cwd {
        Some(cwd) => Some(cwd.clone()),
        None => match &source.workspace_folder_path {
            Some(path) => Some(path.clone()),
            None => copy_optional(&source.workspace_cwd),
        },
    };
    let folder_path = match unless_blank(copy_optional(tab_cwd)) {
        Some(cwd) => Some(cwd),
        None => copy_optional(&source.workspace_folder_path),
    };
    TabDragWorkspaceSeed {
        name: name.to_owned(),
        cwd,
        folder_path: unless_blank(folder_path),
    }
}

/// A workspace that was opened for a dragged tab, and the one that was shown
/// before.
#[derive(Debug, PartialEq)]
pub struct OpenedForTab {
    pub workspace_id: String,
    pub previous: Option<String>,
}

/// Opens a workspace for a dragged tab at the end of the list and shows it.
pub fn create_workspace_for_tab(workspaces: &mut Workspaces, seed: &TabDragWorkspaceSeed) -> (r:
    OpenedForTab)
    ensures
        is_uuid(r.workspace_id@),
        optional_text(r.previous) == shown_id(old(workspaces).arrangement()),
        final(workspaces).views() == old(workspaces).views().push(
            WorkspaceView {
                id: r.workspace_id@,
                name: seed.name@,
                favorite: false,
                unread: false,
                cwd: optional_text(seed.cwd),
                folder_path: optional_text(seed.folder_path),
            },
        ),
        final(workspaces).active_idx == old(workspaces).list@.len(),
{
    let previous = workspaces.active_id();
    let workspace_id = new_workspace_id();
    workspaces.push(
        Workspace {
            id: workspace_id.clone(),
            name: seed.name.clone(),
            favorite: false,
            unread: false,
            cwd: copy_optional(&seed.cwd),
            folder_path: copy_optional(&seed.folder_path),
        },
    );
    OpenedForTab { workspace_id, previous }
}

/// A tab has moved to the workspace that was opened for it, or could not: then the
/// workspace is closed again and the one before it shown. Says whether it has
/// moved, and the session is to be saved.
pub fn tab_moved(workspaces: &mut Workspaces, opened: &OpenedForTab, moved: bool) -> (r: bool)
    ensures
        r == moved,
        moved ==> *final(workspaces) == *old(workspaces),
        !moved ==> match closed(
            old(workspaces).arrangement(),
            opened.workspace_id@,
            optional_text(opened.previous),
        ) {
            Some(after) => final(workspaces).arrangement() == after,
            None => *final(workspaces) == *old(workspaces),
        },
{
    if !moved {
        let previous: Option<&str> = match &opened.previous {
            Some(id) => Some(id.as_str()),
            None => None,
        };
        workspaces.close_workspace_by_id(opened.workspace_id.as_str(), previous);
    }
    moved
}

/// The way to the pane that a dropped tab goes to: always to the first child.
pub open spec fn startmost_path(layout: LayoutView) -> Seq<bool>
    decreases layout,
{
    match layout {
        LayoutView::Pane(_) => Seq::empty(),
        LayoutView::Split { start, .. } => seq![true] + startmost_path(*start),
    }
}

pub fn workspace_drop_layout_path(layout: &LayoutNodeState) -> (r: Vec<bool>)
    ensures
        r@ == startmost_path(layout@),
    decreases layout,
{
    match layout {
        LayoutNodeState::Pane(_) => Vec::new(),
        LayoutNodeState::Split { start, .. } => {
            let mut path: Vec<bool> = Vec::new();
            path.push(true);
            let mut rest = workspace_drop_layout_path(start);
            let ghost below = rest@;
            path.append(&mut rest);
            assert(path@ =~= seq![true] + below);
            path
        },
    }
}

/// Whether a click ends the renaming of a workspace: one outside the entry does.
/// The position, as double-precision patterns, is relative to the entry; there is
/// none where it cannot be told.
pub fn click_commits_rename(
    translated_click: Option<(u64, u64)>,
    entry_width: i32,
    entry_height: i32,
) -> (r: bool)
    ensures
        r == !(match translated_click {
            Some((x, y)) => lies_between(x, 0, entry_width) && lies_between(y, 0, entry_height),
            None => false,
        }),
{
    match translated_click {
        Some((x, y)) => !(between(x, 0, entry_width) && between(y, 0, entry_height)),
        None => true,
    }
}

/// The renaming of a workspace in place.
#[derive(Clone, Copy, Debug, PartialEq, Eq, Structural)]
pub struct InlineRename {
    pub committed: bool,
}

/// What the end of a renaming does.
#[derive(Debug, PartialEq)]
pub enum RenameEnd {
    /// It has ended before: nothing.
    Nothing,
    /// The entry goes; the name stays.
    Dismiss,
    /// The entry goes, the label changes, and the session is saved.
    Rename(String),
}

impl InlineRename {
    pub fn new() -> (r: Self)
        ensures
            !r.committed,
    {
        InlineRename { committed: false }
    }

    /// Ends the renaming with what was typed. The first end counts: leaving the
    /// entry ends it too.
    pub fn commit(
        &mut self,
        workspaces: &mut Workspaces,
        workspace_id: &str,
        typed: &str,
    ) -> (r: RenameEnd)
        ensures
            final(self).committed,
            ({
                let name = trimmed(typed@);
                if old(self).committed {
                    r is Nothing && *final(workspaces) == *old(workspaces)
                } else if name.len() == 0 {
                    r is Dismiss && *final(workspaces) == *old(workspaces)
                } else {
                    &&& r matches RenameEnd::Rename(label) && label@ == name
                    &&& final(workspaces).active_idx == old(workspaces).active_idx
                    &&& match first_where(old(workspaces).views(), has_id(workspace_id@)) {
                        Some(i) => final(workspaces).views() == old(workspaces).views().update(
                            i,
                            WorkspaceView { name, ..old(workspaces).views()[i] },
                        ),
                        None => *final(workspaces) == *old(workspaces),
                    }
                }
            }),
    {
        if self.committed {
            return RenameEnd::Nothing;
        }
        self.committed = true;
        match workspaces.commit_rename(workspace_id, typed) {
            Some(label) => RenameEnd::Rename(label),
            None => RenameEnd::Dismiss,
        }
    }
}

/// What the row of a workspace shows.
#[derive(Debug, PartialEq)]
pub struct SidebarRow {
    pub name: String,
    /// The folder below the name, and in full where the pointer rests on it.
    pub path_label: Option<String>,
    pub path_tooltip: Option<String>,
    pub path_visible: bool,
}

/// What the row of a workspace shows. `home` is the user's home directory, if it
/// is known.
pub fn build_sidebar_row(
    name: &str,
    folder_path: Option<&str>,
    show_workspace_path: bool,
    home: Option<&str>,
) -> (r: SidebarRow)
    ensures
        r.name@ == name@,
        optional_text(r.path_label) == (match folder_path {
            Some(path) => Some(abbreviated(path@, optional_str(home))),
            None => None,
        }),
        optional_text(r.path_tooltip) == optional_str(folder_path),
        r.path_visible == (show_workspace_path && folder_path is Some),
{
    let (path_label, path_tooltip) = match folder_path {
        Some(path) => (Some(abbreviate_path(path, home)), Some(path.to_owned())),
        None => (None, None),
    };
    SidebarRow {
        name: name.to_owned(),
        path_label,
        path_tooltip,
        path_visible: workspace_path_visible(folder_path, show_workspace_path),
    }
}

/// The star of a workspace's row: filled for a pinned workspace.
pub fn favorite_symbol(favorite: bool) -> (r: &'static str)
    ensures
        r@ == (if favorite {
            "\u{2605}"@
        } else {
            "\u{2606}"@
        }),
{
    if favorite {
        "\u{2605}"
    } else {
        "\u{2606}"
    }
}

/// The class of the star of a pinned workspace.
pub fn favorite_class(favorite: bool) -> (r: Option<&'static str>)
    ensures
        match r {
            Some(class) => favorite && class@ == "limux-ws-star-btn-active"@,
            None => !favorite,
        },
{
    if favorite {
        Some("limux-ws-star-btn-active")
    } else {
        None
    }
}

/// The class of the button for new workspaces while something is dragged over it:
/// a tab would get a workspace, a workspace would be closed.
pub fn button_hover_class(tab_dragged: bool) -> (r: &'static str)
    ensures
        r@ == (if tab_dragged {
            "limux-tab-drop-target"@
        } else {
            "limux-sidebar-btn-trash-hover"@
        }),
{
    if tab_dragged {
        "limux-tab-drop-target"
    } else {
        "limux-sidebar-btn-trash-hover"
    }
}

/// The button for new workspaces.
#[derive(Clone, Copy, Debug, PartialEq, Eq, Structural)]
pub struct NewWorkspaceButton {
    /// A workspace is dragged: the button is a trash can.
    pub trash_label: bool,
    /// Its class says so too.
    pub trash: bool,
    /// A workspace is over it.
    pub trash_hover: bool,
    /// A tab is dragged.
    pub tab_active: bool,
    /// A tab is over it.
    pub tab_target: bool,
}

impl NewWorkspaceButton {
    /// The button with nothing dragged.
    pub open spec fn at_rest() -> Self {
        NewWorkspaceButton {
            trash_label: false,
            trash: false,
            trash_hover: false,
            tab_active: false,
            tab_target: false,
        }
    }

    /// The button while a workspace is dragged.
    pub open spec fn trashing(self) -> Self {
        NewWorkspaceButton { trash_label: true, trash: true, ..self }
    }

    /// The button once a workspace is dragged no more.
    pub open spec fn trashed(self) -> Self {
        NewWorkspaceButton { trash_label: false, trash: false, trash_hover: false, ..self }
    }

    pub fn new() -> (r: Self)
        ensures
            r == NewWorkspaceButton::at_rest(),
    {
        NewWorkspaceButton {
            trash_label: false,
            trash: false,
            trash_hover: false,
            tab_active: false,
            tab_target: false,
        }
    }

    /// The label of the button.
    pub fn label(self) -> (r: &'static str)
        ensures
            r@ == (if self.trash_label {
                "\u{1F5D1}\u{FE0E}"@
            } else {
                "New Workspace"@
            }),
    {
        if self.trash_label {
            "\u{1F5D1}\u{FE0E}"
        } else {
            "New Workspace"
        }
    }

    /// Something is dragged over the button: a tab or a workspace.
    pub fn motion(&mut self, tab_dragged: bool)
        ensures
            *final(self) == (if tab_dragged {
                NewWorkspaceButton { tab_target: true, ..*old(self) }
            } else {
                NewWorkspaceButton { trash_hover: true, ..*old(self) }
            }),
    {
        if tab_dragged {
            self.tab_target = true;
        } else {
            self.trash_hover = true;
        }
    }

    /// What was dragged leaves the button.
    pub fn leave(&mut self)
        ensures
            *final(self) == (NewWorkspaceButton {
                trash_hover: false,
                tab_target: false,
                ..*old(self)
            }),
    {
        self.trash_hover = false;
        self.tab_target = false;
    }

    /// What was dragged is dropped on the button.
    pub fn dropped(&mut self)
        ensures
            *final(self) == (NewWorkspaceButton { tab_target: false, ..old(self).trashed() }),
    {
        self.trash_label = false;
        self.trash = false;
        self.trash_hover = false;
        self.tab_target = false;
    }

    /// A tab begins or ceases to be dragged.
    pub fn tab_drag_changed(&mut self, dragging: bool)
        ensures
            *final(self) == (NewWorkspaceButton {
                tab_active: dragging,
                tab_target: dragging && old(self).tab_target,
                ..*old(self)
            }),
    {
        self.tab_active = dragging;
        if !dragging {
            self.tab_target = false;
        }
    }

    /// The classes that the button has beside its own.
    pub fn classes(self) -> (r: Vec<&'static str>)
        ensures
            class_texts(r@) == self.class_names(),
    {
        let mut classes: Vec<&'static str> = Vec::new();
        if self.trash {
            classes.push("limux-sidebar-btn-trash");
        }
        if self.trash_hover {
            classes.push(button_hover_class(false));
        }
        if self.tab_active {
            classes.push("limux-tab-drag-active");
        }
        if self.tab_target {
            classes.push(button_hover_class(true));
        }
        assert(class_texts(classes@) =~= self.class_names());
        classes
    }

    pub open spec fn class_names(self) -> Seq<Seq<char>> {
        class_if(self.trash, "limux-sidebar-btn-trash"@) + class_if(
            self.trash_hover,
            "limux-sidebar-btn-trash-hover"@,
        ) + class_if(self.tab_active, "limux-tab-drag-active"@) + class_if(
            self.tab_target,
            "limux-tab-drop-target"@,
        )
    }
}

/// A class, if it applies.
pub open spec fn class_if(applies: bool, class: Seq<char>) -> Seq<Seq<char>> {
    if applies {
        seq![class]
    } else {
        Seq::empty()
    }
}

/// The names in a list of classes.
pub open spec fn class_texts(classes: Seq<&'static str>) -> Seq<Seq<char>> {
    Seq::new(classes.len(), |i: int| classes[i]@)
}

/// A workspace that is dragged from its row.
#[derive(Debug, PartialEq)]
pub struct WorkspaceDrag {
    /// The workspace that is dragged, if one is. The panes take no drops meanwhile.
    pub dragging: Option<String>,
    pub button: NewWorkspaceButton,
}

impl WorkspaceDrag {
    /// Nothing is dragged.
    pub fn new() -> (r: Self)
        ensures
            r.dragging is None,
            r.button == NewWorkspaceButton::at_rest(),
    {
        WorkspaceDrag { dragging: None, button: NewWorkspaceButton::new() }
    }

    /// A workspace begins to be dragged: the button becomes a trash can.
    pub fn begin(&mut self, workspace_id: &str)
        ensures
            final(self).dragging matches Some(id) && id@ == workspace_id@,
            final(self).button == old(self).button.trashing(),
    {
        self.dragging = Some(workspace_id.to_owned());
        self.button.trash_label = true;
        self.button.trash = true;
    }

    /// The drag ends, however it does: the button is what it was.
    pub fn end(&mut self)
        ensures
            final(self).dragging is None,
            final(self).button == old(self).button.trashed(),
    {
        self.dragging = None;
        self.button.trash_label = false;
        self.button.trash = false;
        self.button.trash_hover = false;
    }
}

/// A drag of a workspace leaves the button as it was, whether it went over the
/// button or not.
pub proof fn lemma_drag_leaves_button(button: NewWorkspaceButton, hovered: bool)
    requires
        !button.trash_label && !button.trash && !button.trash_hover,
    ensures
        (NewWorkspaceButton { trash_hover: hovered, ..button.trashing() }).trashed() == button,
{
}

/// A tab that is dragged is found again: the text that names a pane and a tab, with a
/// colon between, leads to that pane and that tab, whatever the tab is called. A text
/// without a colon names none.
pub proof fn lemma_dragged_tab_is_found(pane: u32, tab: Seq<char>, payload: Seq<char>)
    ensures
        tab_in(decimal_text(pane as nat) + seq![':'] + tab) == Some((pane, tab)),
        !payload.contains(':') ==> tab_in(payload) is None,
        tab_in(payload) matches Some((pane, tab)) ==> tab.is_suffix_of(payload),
{
    let digits = decimal_text(pane as nat);
    let text = digits + seq![':'] + tab;
    lemma_decimal_digits(pane as nat);
    lemma_number_written_and_read(pane);
    assert forall|j: int| 0 <= j < digits.len() implies text[j] != ':' by {
        assert(digit_value(digits[j]) is Some);
    }
    lemma_position_is(text, ':', digits.len() as int);
    assert(text.take(digits.len() as int) =~= digits);
    assert(text.skip(digits.len() as int + 1) =~= tab);
    lemma_position_of(payload, ':');
    if let Some((p, t)) = tab_in(payload) {
        assert(t =~= payload.subrange(payload.len() - t.len(), payload.len() as int));
    }
}

/// The way to the first pane of a layout goes to the start at every split, and ends
/// at a pane.
pub proof fn lemma_startmost_is_a_pane(layout: LayoutView)
    ensures
        ({
            let path = startmost_path(layout);
            &&& forall|i: int| 0 <= i < path.len() ==> #[trigger] path[i]
            &&& layout.at(Seq::new(path.len(), |i: int| false)) matches Some(LayoutView::Pane(_))
        }),
    decreases layout,
{
    match layout {
        LayoutView::Pane(_) => {},
        LayoutView::Split { start, .. } => {
            lemma_startmost_is_a_pane(*start);
            let below = startmost_path(*start);
            let path = startmost_path(layout);
            assert(path.len() == below.len() + 1);
            assert forall|i: int| 0 <= i < path.len() implies #[trigger] path[i] by {
                if i > 0 {
                    assert(path[i] == below[i - 1]);
                }
            }
            let way = Seq::new(path.len(), |i: int| false);
            assert(way.skip(1) =~= Seq::new(below.len(), |i: int| false));
            assert(!way[0]);
        },
    }
}

/// Of two texts that may be there the first is taken, and the second only where the
/// first is missing; one of nothing but blanks counts as missing.
pub proof fn lemma_first_text_there(a: Option<Seq<char>>, b: Option<Seq<char>>)
    ensures
        a is Some ==> first_of(a, b) == a,
        a is None ==> first_of(a, b) == b,
        not_blank(a) is Some <==> (a matches Some(text) && trimmed(text).len() > 0),
        not_blank(a) is Some ==> not_blank(a) == a,
{
}

/// The button looks as it is: each of its looks shows exactly where it applies.
pub proof fn lemma_button_looks(button: NewWorkspaceButton)
    ensures
        ({
            let names = button.class_names();
            &&& names.contains("limux-sidebar-btn-trash"@) <==> button.trash
            &&& names.contains("limux-sidebar-btn-trash-hover"@) <==> button.trash_hover
            &&& names.contains("limux-tab-drag-active"@) <==> button.tab_active
            &&& names.contains("limux-tab-drop-target"@) <==> button.tab_target
            &&& button.trashing().trash && button.trashing().trash_label
            &&& button.trashing().trash_hover == button.trash_hover
            &&& !button.trashed().trash && !button.trashed().trash_label
                && !button.trashed().trash_hover
            &&& button.trashing().tab_active == button.tab_active && button.trashed().tab_active
                == button.tab_active
            &&& button.trashing().tab_target == button.tab_target && button.trashed().tab_target
                == button.tab_target
        }),
{
    reveal_strlit("limux-sidebar-btn-trash");
    reveal_strlit("limux-sidebar-btn-trash-hover");
    reveal_strlit("limux-tab-drag-active");
    reveal_strlit("limux-tab-drop-target");
    assert("limux-sidebar-btn-trash"@.len() == 23);
    assert("limux-sidebar-btn-trash-hover"@.len() == 29);
    assert("limux-tab-drag-active"@[11] == 'r' && "limux-tab-drag-active"@[12] == 'a');
    assert("limux-tab-drop-target"@[12] == 'o');
    let names = button.class_names();
    let a: int = if button.trash {
        1
    } else {
        0
    };
    let b: int = if button.trash_hover {
        a + 1
    } else {
        a
    };
    let c: int = if button.tab_active {
        b + 1
    } else {
        b
    };
    assert(button.trash ==> names[0] == "limux-sidebar-btn-trash"@);
    assert(button.trash_hover ==> names[a] == "limux-sidebar-btn-trash-hover"@);
    assert(button.tab_active ==> names[b] == "limux-tab-drag-active"@);
    assert(button.tab_target ==> names[c] == "limux-tab-drop-target"@);
}

} // verus!
