//! Sessions: when the window's state is saved, what is saved, and how it comes
//! back.
use uuid::Uuid;
use vstd::prelude::*;
use vstd::string::*;

use crate::split_tree::{LayoutNodeState, LayoutView, PaneState, PaneStateView, SplitNode};
use crate::text::{copy_optional, optional_text};
use crate::window::sidebar::SIDEBAR_WIDTH;
use crate::window::workspaces::{Workspace, WorkspaceView, Workspaces};

verus! {

/// What is to be done about a request to save.
#[derive(Clone, Copy, Debug, PartialEq, Eq, Structural)]
pub enum SessionSaveRequest {
    Ignore,
    RetryOnIdle,
    FlushOnIdle,
}

/// Whether the session is saved at the next idle moment, and whether it may be.
#[derive(Clone, Copy, Debug, PartialEq, Eq, Structural)]
pub struct SessionSave {
    pub persistence_suspended: bool,
    pub save_queued: bool,
}

impl SessionSave {
    pub fn new() -> (r: Self)
        ensures
            r == (SessionSave { persistence_suspended: false, save_queued: false }),
    {
        SessionSave { persistence_suspended: false, save_queued: false }
    }

    /// What is to be done about a request to save.
    pub open spec fn answer(self, in_use: bool) -> SessionSaveRequest {
        if in_use {
            SessionSaveRequest::RetryOnIdle
        } else if self.persistence_suspended || self.save_queued {
            SessionSaveRequest::Ignore
        } else {
            SessionSaveRequest::FlushOnIdle
        }
    }

    /// The state after a request to save.
    pub open spec fn after_request(self, in_use: bool) -> SessionSave {
        SessionSave {
            save_queued: self.save_queued || self.answer(in_use)
                == SessionSaveRequest::FlushOnIdle,
            ..self
        }
    }

    /// Asks for a save. While the state is in use, the request has to come again;
    /// a save that is queued already, or not allowed, needs nothing more.
    pub fn queue_session_save_request(&mut self, in_use: bool) -> (r: SessionSaveRequest)
        ensures
            r == old(self).answer(in_use),
            *final(self) == old(self).after_request(in_use),
    {
        if in_use {
            return SessionSaveRequest::RetryOnIdle;
        }
        if self.persistence_suspended || self.save_queued {
            SessionSaveRequest::Ignore
        } else {
            self.save_queued = true;
            SessionSaveRequest::FlushOnIdle
        }
    }

    /// The idle moment of a queued save. Says whether to save.
    pub fn flush(&mut self) -> (r: bool)
        ensures
            r == (old(self).save_queued && !old(self).persistence_suspended),
            *final(self) == (SessionSave { save_queued: false, ..*old(self) }),
    {
        let should_save = self.save_queued && !self.persistence_suspended;
        self.save_queued = false;
        should_save
    }

    pub fn suspend_persistence(&mut self, suspended: bool)
        ensures
            *final(self) == (SessionSave { persistence_suspended: suspended, ..*old(self) }),
    {
        self.persistence_suspended = suspended;
    }

    /// The window closes: nothing is saved any more.
    pub fn stop_session_saves_for_shutdown(&mut self)
        ensures
            *final(self) == (SessionSave { persistence_suspended: true, save_queued: false }),
    {
        self.save_queued = false;
        self.persistence_suspended = true;
    }
}

/// However often a save is asked for before the idle moment, it is queued once.
pub proof fn lemma_one_save_at_a_time(state: SessionSave, in_use: bool)
    requires
        state.answer(false) == SessionSaveRequest::FlushOnIdle,
    ensures
        state.after_request(false).answer(in_use) != SessionSaveRequest::FlushOnIdle,
        state.after_request(false).after_request(in_use) == state.after_request(false),
{
}

/// While saving is suspended no request leads to a save, and none is kept.
pub proof fn lemma_no_save_while_suspended(state: SessionSave, in_use: bool)
    requires
        state.persistence_suspended,
    ensures
        state.answer(in_use) != SessionSaveRequest::FlushOnIdle,
        state.after_request(in_use) == state,
{
}

/// Whether a restored session is saved at once: if it had workspaces, or came from
/// an older format.
pub fn saves_after_restore(workspaces: usize, legacy_source: bool) -> (r: bool)
    ensures
        r == (workspaces > 0 || legacy_source),
{
    workspaces > 0 || legacy_source
}

/// A workspace as it is kept between sessions.
#[derive(Debug, PartialEq)]
pub struct WorkspaceState {
    pub id: Option<String>,
    pub name: String,
    pub favorite: bool,
    pub cwd: Option<String>,
    pub folder_path: Option<String>,
    pub layout: LayoutNodeState,
}

/// What a [`WorkspaceState`] stands for.
pub ghost struct WorkspaceStateView {
    pub id: Option<Seq<char>>,
    pub name: Seq<char>,
    pub favorite: bool,
    pub cwd: Option<Seq<char>>,
    pub folder_path: Option<Seq<char>>,
    pub layout: LayoutView,
}

impl View for WorkspaceState {
    type V = WorkspaceStateView;

    open spec fn view(&self) -> WorkspaceStateView {
        WorkspaceStateView {
            id: optional_text(self.id),
            name: self.name@,
            favorite: self.favorite,
            cwd: optional_text(self.cwd),
            folder_path: optional_text(self.folder_path),
            layout: self.layout@,
        }
    }
}

/// The directory that new panes of a workspace start in: its folder, else where
/// its terminal was last.
pub open spec fn start_directory(
    folder_path: Option<Seq<char>>,
    cwd: Option<Seq<char>>,
) -> Option<Seq<char>> {
    match folder_path {
        Some(path) => Some(path),
        None => cwd,
    }
}

pub fn working_directory(folder_path: &Option<String>, cwd: &Option<String>) -> (r: Option<String>)
    ensures
        optional_text(r) == start_directory(optional_text(*folder_path), optional_text(*cwd)),
{
    match folder_path {
        Some(path) => Some(path.clone()),
        None => copy_optional(cwd),
    }
}

/// What is kept of a workspace.
pub open spec fn kept(w: WorkspaceView, tree: SplitNode, recorded: Seq<u64>) -> WorkspaceStateView {
    WorkspaceStateView {
        id: Some(w.id),
        name: w.name,
        favorite: w.favorite,
        cwd: w.cwd,
        folder_path: w.folder_path,
        layout: tree.layout(recorded, start_directory(w.folder_path, w.cwd)),
    }
}

/// What is kept of a workspace. `recorded` lists the panes of which a record
/// exists.
pub fn snapshot_workspace(workspace: &Workspace, tree: &SplitNode, recorded: &Vec<u64>) -> (r:
    WorkspaceState)
    ensures
        r@ == kept(workspace@, *tree, recorded@),
{
    let directory = working_directory(&workspace.folder_path, &workspace.cwd);
    let start: Option<&str> = match &directory {
        Some(dir) => Some(dir.as_str()),
        None => None,
    };
    WorkspaceState {
        id: Some(workspace.id.clone()),
        name: workspace.name.clone(),
        favorite: workspace.favorite,
        cwd: copy_optional(&workspace.cwd),
        folder_path: copy_optional(&workspace.folder_path),
        layout: tree.snapshot(recorded, start),
    }
}

/// Whether a text is a UUID, as the `uuid` crate reads them.
pub uninterp spec fn is_uuid(text: Seq<char>) -> bool;

/// `uuid::Uuid::parse_str`, of which only counts whether it succeeds.
#[verifier::external_body]
fn uuid_is_valid(text: &str) -> (r: bool)
    ensures
        r == is_uuid(text@),
{
    Uuid::parse_str(text).is_ok()
}

/// `uuid::Uuid::new_v4`, as text: a random UUID in its hyphenated form of 36
/// characters. Which one it is is left open.
#[verifier::external_body]
fn random_uuid() -> (r: String)
    ensures
        is_uuid(r@),
        r@.len() == 36,
{
    Uuid::new_v4().to_string()
}

/// An identifier for a new workspace.
pub fn new_workspace_id() -> (r: String)
    ensures
        is_uuid(r@),
        r@.len() == 36,
{
    random_uuid()
}

/// The identifier of a restored workspace: the one that was kept, if it is a
/// UUID, else a new one.
pub fn restored_workspace_id(saved: &Option<String>) -> (r: String)
    ensures
        is_uuid(r@),
        match saved {
            Some(id) if is_uuid(id@) => r@ == id@,
            _ => r@.len() == 36,
        },
{
    match saved {
        Some(id) => if uuid_is_valid(id.as_str()) {
            id.clone()
        } else {
            random_uuid()
        },
        None => random_uuid(),
    }
}

/// A workspace as it comes back: with nothing unread.
pub open spec fn restored(id: Seq<char>, state: WorkspaceStateView) -> WorkspaceView {
    WorkspaceView {
        id,
        name: state.name,
        favorite: state.favorite,
        unread: false,
        cwd: state.cwd,
        folder_path: state.folder_path,
    }
}

/// A workspace from what was kept of it, under an identifier.
pub fn workspace_with_id(id: String, state: &WorkspaceState) -> (r: Workspace)
    ensures
        r@ == restored(id@, state@),
{
    Workspace {
        id,
        name: state.name.clone(),
        favorite: state.favorite,
        unread: false,
        cwd: copy_optional(&state.cwd),
        folder_path: copy_optional(&state.folder_path),
    }
}

/// A workspace from what was kept of it.
pub fn add_workspace_from_state(state: &WorkspaceState) -> (r: Workspace)
    ensures
        is_uuid(r.id@),
        r@ == restored(r.id@, state@),
        match state.id {
            Some(id) => is_uuid(id@) ==> r.id@ == id@,
            None => true,
        },
{
    let id = restored_workspace_id(&state.id);
    workspace_with_id(id, state)
}

/// A workspace that was kept comes back as it was, with what was unread taken for
/// seen.
pub proof fn lemma_kept_workspace_comes_back(
    w: WorkspaceView,
    tree: SplitNode,
    recorded: Seq<u64>,
)
    ensures
        restored(w.id, kept(w, tree, recorded)) == (WorkspaceView { unread: false, ..w }),
{
}

/// The state of a workspace that is opened on a folder.
pub fn workspace_on_folder(name: &str, folder_path: &str) -> (r: WorkspaceState)
    ensures
        r@ == (WorkspaceStateView {
            id: None,
            name: name@,
            favorite: false,
            cwd: Some(folder_path@),
            folder_path: Some(folder_path@),
            layout: LayoutView::Pane(PaneStateView::Fallback(Some(folder_path@))),
        }),
{
    WorkspaceState {
        id: None,
        name: name.to_owned(),
        favorite: false,
        cwd: Some(folder_path.to_owned()),
        folder_path: Some(folder_path.to_owned()),
        layout: LayoutNodeState::Pane(PaneState::Fallback(Some(folder_path.to_owned()))),
    }
}

/// The name of a workspace's page in the window.
pub fn stack_name(id: &str) -> (r: String)
    ensures
        r@ == "ws-"@ + id@,
{
    let mut name = "ws-".to_owned();
    name.append(id);
    name
}

/// The sidebar as it is kept between sessions.
#[derive(Clone, Copy, Debug, PartialEq, Eq, Structural)]
pub struct SidebarState {
    pub visible: bool,
    pub width: i32,
}

/// What is kept of the sidebar: its width now if it is open, else the width that
/// it had; at least the usual one.
pub fn snapshot_sidebar(visible: bool, width: i32, expanded_width: i32) -> (r: SidebarState)
    ensures
        r.visible == visible,
        r.width == (if visible {
            if width > SIDEBAR_WIDTH {
                width
            } else {
                SIDEBAR_WIDTH
            }
        } else {
            if expanded_width > SIDEBAR_WIDTH {
                expanded_width
            } else {
                SIDEBAR_WIDTH
            }
        }),
        r.width >= SIDEBAR_WIDTH,
        visible ==> r.width >= width && (r.width == width || r.width == SIDEBAR_WIDTH),
        !visible ==> r.width >= expanded_width && (r.width == expanded_width || r.width
            == SIDEBAR_WIDTH),
{
    let kept: i32 = if visible {
        width
    } else {
        expanded_width
    };
    SidebarState {
        visible,
        width: if kept > SIDEBAR_WIDTH {
            kept
        } else {
            SIDEBAR_WIDTH
        },
    }
}

/// A session as it is kept.
#[derive(Debug, PartialEq)]
pub struct AppSessionState {
    /// The version of the format that it is kept in.
    pub version: u32,
    pub active_workspace_index: usize,
    pub top_bar_visible: bool,
    pub sidebar: SidebarState,
    pub workspaces: Vec<WorkspaceState>,
}

/// The workspaces of a session.
pub open spec fn state_views(list: Seq<WorkspaceState>) -> Seq<WorkspaceStateView> {
    Seq::new(list.len(), |i: int| list[i]@)
}

/// What is kept of workspaces, each with the tree of its panes.
pub open spec fn kept_list(
    list: Seq<WorkspaceView>,
    trees: Seq<SplitNode>,
    recorded: Seq<u64>,
) -> Seq<WorkspaceStateView> {
    Seq::new(list.len(), |i: int| kept(list[i], trees[i], recorded))
}

/// What is kept of a session: its workspaces in their order, each with the tree of
/// its panes, which of them is shown, and the bars. `recorded` lists the panes of
/// which a record exists.
pub fn snapshot_session_state(
    version: u32,
    workspaces: &Workspaces,
    trees: &Vec<SplitNode>,
    recorded: &Vec<u64>,
    top_bar_visible: bool,
    sidebar: SidebarState,
) -> (r: AppSessionState)
    requires
        trees@.len() == workspaces.list@.len(),
    ensures
        r.version == version,
        r.active_workspace_index == workspaces.active_idx,
        r.top_bar_visible == top_bar_visible,
        r.sidebar == sidebar,
        state_views(r.workspaces@) == kept_list(workspaces.views(), trees@, recorded@),
{
    let mut list: Vec<WorkspaceState> = Vec::new();
    let mut i: usize = 0;
    let ghost all = kept_list(workspaces.views(), trees@, recorded@);
    while i < workspaces.list.len()
        invariant
            trees@.len() == workspaces.list@.len(),
            i <= workspaces.list@.len(),
            all == kept_list(workspaces.views(), trees@, recorded@),
            state_views(list@) =~= all.take(i as int),
        decreases workspaces.list@.len() - i,
    {
        let ghost before = list@;
        list.push(snapshot_workspace(&workspaces.list[i], &trees[i], recorded));
        proof {
            assert(state_views(list@) =~= state_views(before).push(list@[i as int]@));
            assert(all[i as int] == kept(workspaces.list@[i as int]@, trees@[i as int], recorded@));
        }
        i += 1;
    }
    assert(all.take(i as int) =~= all);
    AppSessionState {
        version,
        active_workspace_index: workspaces.active_idx,
        top_bar_visible,
        sidebar,
        workspaces: list,
    }
}

/// Whether a workspace is what comes back of a kept one: under the identifier that
/// was kept if that is a UUID, else under some UUID.
pub open spec fn comes_back_as(state: WorkspaceStateView, w: WorkspaceView) -> bool {
    &&& is_uuid(w.id)
    &&& w == restored(w.id, state)
    &&& state.id matches Some(id) ==> is_uuid(id) ==> w.id == id
}

/// The workspace to show of those that came back: the one that was shown, or the
/// last where there are fewer.
pub open spec fn shown_again(len: nat, index: nat) -> nat {
    if index < len {
        index
    } else if len > 0 {
        (len - 1) as nat
    } else {
        0
    }
}

/// The workspaces that come back of a session.
pub fn apply_loaded_session(session: &AppSessionState) -> (r: Workspaces)
    ensures
        r.views().len() == session.workspaces@.len(),
        forall|i: int|
            0 <= i < session.workspaces@.len() ==> comes_back_as(
                session.workspaces@[i]@,
                #[trigger] r.views()[i],
            ),
        r.active_idx == shown_again(
            session.workspaces@.len(),
            session.active_workspace_index as nat,
        ),
{
    let mut workspaces = Workspaces { list: Vec::new(), active_idx: 0 };
    let mut i: usize = 0;
    while i < session.workspaces.len()
        invariant
            i <= session.workspaces@.len(),
            workspaces.views().len() == i,
            i == 0 ==> workspaces.active_idx == 0,
            forall|j: int|
                0 <= j < i ==> comes_back_as(
                    session.workspaces@[j]@,
                    #[trigger] workspaces.views()[j],
                ),
        decreases session.workspaces@.len() - i,
    {
        let workspace = add_workspace_from_state(&session.workspaces[i]);
        assert(comes_back_as(session.workspaces@[i as int]@, workspace@));
        let ghost before = workspaces.views();
        workspaces.push(workspace);
        assert forall|j: int| 0 <= j <= i implies comes_back_as(
            session.workspaces@[j]@,
            #[trigger] workspaces.views()[j],
        ) by {
            assert(workspaces.views()[j] == before.push(workspace@)[j]);
            if j < i {
                assert(comes_back_as(session.workspaces@[j]@, before[j]));
            }
        }
        i += 1;
    }
    match workspaces.restore_target(session.active_workspace_index) {
        Some(index) => {
            workspaces.switch_workspace(index);
        },
        None => {},
    }
    workspaces
}

/// A session that was kept comes back as it was: every workspace in its place, with
/// what was unread taken for seen, and the same one shown.
pub proof fn lemma_session_comes_back(
    list: Seq<WorkspaceView>,
    active: int,
    trees: Seq<SplitNode>,
    recorded: Seq<u64>,
    back: Seq<WorkspaceView>,
)
    requires
        0 <= active < list.len(),
        back.len() == list.len(),
    ensures
        forall|i: int|
            0 <= i < list.len() && is_uuid(list[i].id) && comes_back_as(
                kept_list(list, trees, recorded)[i],
                back[i],
            ) ==> #[trigger] back[i] == (WorkspaceView { unread: false, ..list[i] }),
        shown_again(list.len(), active as nat) == active,
{
    assert forall|i: int|
        0 <= i < list.len() && is_uuid(list[i].id) && comes_back_as(
            kept_list(list, trees, recorded)[i],
            back[i],
        ) implies #[trigger] back[i] == (WorkspaceView { unread: false, ..list[i] }) by {
        assert(kept_list(list, trees, recorded)[i] == kept(list[i], trees[i], recorded));
        lemma_kept_workspace_comes_back(list[i], trees[i], recorded);
    }
}

/// What is kept of a workspace, and what comes back of it, agree with the workspace
/// in everything that lasts. The panes are kept in the shape that they have, and
/// those without a record are to start in the workspace's folder.
pub proof fn lemma_workspace_is_kept_as_it_is(
    w: WorkspaceView,
    tree: SplitNode,
    recorded: Seq<u64>,
    id: Seq<char>,
    state: WorkspaceStateView,
)
    ensures
        ({
            let state = kept(w, tree, recorded);
            &&& state.id == Some(w.id)
            &&& state.name == w.name
            &&& state.favorite == w.favorite
            &&& state.cwd == w.cwd
            &&& state.folder_path == w.folder_path
            &&& w.folder_path is Some ==> state.layout == tree.layout(recorded, w.folder_path)
            &&& w.folder_path is None ==> state.layout == tree.layout(recorded, w.cwd)
        }),
        ({
            let back = restored(id, state);
            &&& back.id == id
            &&& back.name == state.name
            &&& back.favorite == state.favorite
            &&& !back.unread
            &&& back.cwd == state.cwd
            &&& back.folder_path == state.folder_path
        }),
{
}

/// Workspaces are kept in their order, each with the tree of its own panes.
pub proof fn lemma_list_is_kept_in_order(
    list: Seq<WorkspaceView>,
    trees: Seq<SplitNode>,
    recorded: Seq<u64>,
    i: int,
)
    requires
        0 <= i < list.len(),
    ensures
        kept_list(list, trees, recorded).len() == list.len(),
        kept_list(list, trees, recorded)[i].id == Some(list[i].id),
        kept_list(list, trees, recorded)[i].name == list[i].name,
        kept_list(list, trees, recorded)[i].layout == trees[i].layout(
            recorded,
            start_directory(list[i].folder_path, list[i].cwd),
        ),
{
}

/// A request to save is turned away only where a save is queued or none may be
/// made. One that cannot be looked at now, because the state is in use, is to come
/// again and changes nothing. Any other queues a save, and no request ever takes one
/// back.
pub proof fn lemma_request_leads_to_a_save(state: SessionSave, in_use: bool)
    ensures
        ({
            let answer = state.answer(in_use);
            let after = state.after_request(in_use);
            &&& in_use <==> answer == SessionSaveRequest::RetryOnIdle
            &&& in_use ==> after == state
            &&& answer == SessionSaveRequest::Ignore ==> after == state && (state.save_queued
                || state.persistence_suspended)
            &&& answer == SessionSaveRequest::FlushOnIdle ==> after.save_queued
                && !state.save_queued && !state.persistence_suspended
            &&& !in_use && !state.persistence_suspended ==> after.save_queued
            &&& state.save_queued ==> after.save_queued
            &&& after.persistence_suspended == state.persistence_suspended
        }),
{
}

/// Of the workspaces that came back one is shown, if there are any: the one that was
/// shown, or the last where that is not among them.
pub proof fn lemma_some_workspace_is_shown(len: nat, index: nat)
    ensures
        len > 0 ==> shown_again(len, index) < len,
        index < len ==> shown_again(len, index) == index,
        len > 0 && index >= len ==> shown_again(len, index) + 1 == len,
        len == 0 ==> shown_again(len, index) == 0,
{
}

} // verus!
