//! Commands that reach the window from outside, over its control socket.
//!
//! A command is either answered at once or asks for something of the toolkit
//! first; the functions below say what, and what is answered then.
use vstd::prelude::*;
use vstd::string::*;

use crate::json::{Json, JsonView};
use crate::paths::{file_name, folder_name};
use crate::text::{
    all_digits, copy_optional, decimal_text, digit_value, lemma_decimal_digits,
    lemma_number_written_and_read, number_in, optional_str, optional_text, parse_number,
    trimmed_end, trimmed_start,
};
use crate::window::handles::{
    lemma_handles_lead_back, pane_handle, pane_named, parse_pane_handle, surface_handle,
    surface_ref, workspace_handle, workspace_ref,
};
use crate::window::notifications::{
    combine_body, combined, notification_message, workspace_notification_message,
    DesktopNotificationTarget, TargetView,
};
use crate::window::payload::{
    focus_in, focused_fields, focused_ids_for_workspace, focused_pane, focused_surface,
    focused_surface_payload, health_rows, pane_create_fields, pane_create_response_payload,
    pane_list_payload, pane_rows, surface_fields, surface_health_payload, surface_list_payload,
    surface_rows, surfaces_named, surfaces_of, text, workspace_answer, workspace_list_rows,
    workspace_payload, workspace_rows, PaneSummary, SurfaceSummary, SurfaceView,
};
use crate::window::targets::{
    lists_pane, pane_create_split_placement, pane_create_target_error, placement,
    resolve_pane_create_source_id, target_index, workspace_index_for_target, BridgeError, ErrorKind,
    PaneCreateDirection, PaneCreateSplitPlacement, PaneCreateTargetError, WorkspaceTarget,
};
use crate::window::workspaces::{
    distinct_ids, first_where, has_id, index_of_id, WorkspaceView, Workspaces,
};

verus! {

/// What is in a workspace.
#[derive(Debug, PartialEq)]
pub struct WorkspaceContents {
    pub panes: Vec<PaneSummary>,
    pub surfaces: Vec<SurfaceSummary>,
}

/// The window as a command finds it.
#[derive(Debug, PartialEq)]
pub struct World {
    pub workspaces: Workspaces,
    /// What is in each workspace.
    pub contents: Vec<WorkspaceContents>,
    /// The surface that has the focus.
    pub focused: Option<SurfaceSummary>,
}

impl World {
    pub open spec fn wf(self) -> bool {
        &&& self.workspaces.wf()
        &&& self.contents@.len() == self.workspaces.list@.len()
    }

    pub open spec fn focus(self) -> Option<SurfaceView> {
        match self.focused {
            Some(s) => Some(s@),
            None => None,
        }
    }

    /// The surface that has the focus, if it is in the workspace at a position.
    pub open spec fn focus_at(self, index: int) -> Option<SurfaceView> {
        focus_in(self.workspaces, self.workspaces.list@[index].id@, self.focus())
    }
}

/// What kind of pane is asked for.
#[derive(Clone, Copy, Debug, PartialEq, Eq, Structural)]
pub enum PaneCreateType {
    Terminal,
    Browser,
}

/// The request for a new pane.
#[derive(Debug, PartialEq)]
pub struct PaneCreateRequest {
    pub target: WorkspaceTarget,
    pub pane_type: PaneCreateType,
    pub direction: PaneCreateDirection,
    pub source_pane_id: Option<String>,
    pub source_surface_id: Option<String>,
    /// A command to run in it.
    pub command: Option<String>,
}

/// A command.
#[derive(Debug, PartialEq)]
pub enum ControlCommand {
    Identify { caller: Option<Json> },
    CurrentWorkspace,
    ListWorkspaces,
    ListPanes { target: WorkspaceTarget },
    ListPaneSurfaces { target: WorkspaceTarget, pane_id: Option<String> },
    CreatePane { request: PaneCreateRequest },
    ListSurfaces { target: WorkspaceTarget },
    SurfaceHealth { target: WorkspaceTarget, surface_hint: Option<String> },
    CreateWorkspace { name: Option<String>, cwd: Option<String>, command: Option<String> },
    SelectWorkspace { target: WorkspaceTarget },
    RenameWorkspace { target: WorkspaceTarget, title: String },
    CloseWorkspace { target: WorkspaceTarget },
    SendText { target: WorkspaceTarget, surface_hint: Option<String>, text: String },
    ReadSurfaceText { target: WorkspaceTarget, surface_hint: Option<String> },
    SendKey { target: WorkspaceTarget, surface_hint: Option<String>, key: String },
    CreateNotification {
        target: WorkspaceTarget,
        surface_hint: Option<String>,
        title: String,
        subtitle: String,
        body: String,
    },
}

/// What is wanted of a terminal.
#[derive(Debug, PartialEq)]
pub enum TerminalUse {
    SendText(String),
    ReadText,
    SendKey(String),
}

/// What a command comes to.
#[derive(Debug, PartialEq)]
pub enum ControlStep {
    Reply(Result<Json, BridgeError>),
    /// Split a pane, then see [`pane_created`].
    SplitPane {
        workspace_id: String,
        workspace_name: String,
        pane_id: u32,
        placement: PaneCreateSplitPlacement,
        command: Option<String>,
    },
    /// Open a workspace, then see [`workspace_created`].
    CreateWorkspace { title: String, folder_path: String, command: Option<String> },
    /// Show a workspace, then see [`workspace_selected`].
    SelectWorkspace(usize),
    /// Rename a workspace: see [`rename_workspace`].
    RenameWorkspace { index: usize, title: String },
    /// Close a workspace and answer with what it was.
    CloseWorkspace { workspace_id: String, answer: Json },
    /// Find a terminal in a workspace, then see [`terminal_found`].
    UseTerminal { workspace: usize, hint: Option<String>, wanted: TerminalUse },
    /// Notify: see [`notification_plan`].
    Notify {
        workspace: usize,
        surface_hint: Option<String>,
        title: String,
        subtitle: String,
        body: String,
    },
}

/// What a [`TerminalUse`] stands for.
pub ghost enum UseView {
    SendText(Seq<char>),
    ReadText,
    SendKey(Seq<char>),
}

/// What a [`ControlStep`] stands for.
pub ghost enum StepView {
    Reply(JsonView),
    Failure(ErrorKind, Seq<char>),
    SplitPane {
        workspace_id: Seq<char>,
        workspace_name: Seq<char>,
        pane_id: u32,
        placement: PaneCreateSplitPlacement,
        command: Option<Seq<char>>,
    },
    CreateWorkspace { title: Seq<char>, folder_path: Seq<char>, command: Option<Seq<char>> },
    SelectWorkspace(int),
    RenameWorkspace { index: int, title: Seq<char> },
    CloseWorkspace { workspace_id: Seq<char>, answer: JsonView },
    UseTerminal { workspace: int, hint: Option<Seq<char>>, wanted: UseView },
    Notify {
        workspace: int,
        surface_hint: Option<Seq<char>>,
        title: Seq<char>,
        subtitle: Seq<char>,
        body: Seq<char>,
    },
}

impl View for TerminalUse {
    type V = UseView;

    open spec fn view(&self) -> UseView {
        match self {
            TerminalUse::SendText(text) => UseView::SendText(text@),
            TerminalUse::ReadText => UseView::ReadText,
            TerminalUse::SendKey(key) => UseView::SendKey(key@),
        }
    }
}

impl View for ControlStep {
    type V = StepView;

    open spec fn view(&self) -> StepView {
        match self {
            ControlStep::Reply(Ok(answer)) => StepView::Reply(answer@),
            ControlStep::Reply(Err(error)) => StepView::Failure(error.kind, error.message@),
            ControlStep::SplitPane {
                workspace_id,
                workspace_name,
                pane_id,
                placement,
                command,
            } => StepView::SplitPane {
                workspace_id: workspace_id@,
                workspace_name: workspace_name@,
                pane_id: *pane_id,
                placement: *placement,
                command: optional_text(*command),
            },
            ControlStep::CreateWorkspace { title, folder_path, command } =>
                StepView::CreateWorkspace {
                title: title@,
                folder_path: folder_path@,
                command: optional_text(*command),
            },
            ControlStep::SelectWorkspace(index) => StepView::SelectWorkspace(*index as int),
            ControlStep::RenameWorkspace { index, title } => StepView::RenameWorkspace {
                index: *index as int,
                title: title@,
            },
            ControlStep::CloseWorkspace { workspace_id, answer } => StepView::CloseWorkspace {
                workspace_id: workspace_id@,
                answer: answer@,
            },
            ControlStep::UseTerminal { workspace, hint, wanted } => StepView::UseTerminal {
                workspace: *workspace as int,
                hint: optional_text(*hint),
                wanted: wanted@,
            },
            ControlStep::Notify { workspace, surface_hint, title, subtitle, body } =>
                StepView::Notify {
                workspace: *workspace as int,
                surface_hint: optional_text(*surface_hint),
                title: title@,
                subtitle: subtitle@,
                body: body@,
            },
        }
    }
}

pub open spec fn not_found(message: Seq<char>) -> StepView {
    StepView::Failure(ErrorKind::NotFound, message)
}

pub open spec fn invalid(message: Seq<char>) -> StepView {
    StepView::Failure(ErrorKind::InvalidParams, message)
}

/// The answer to the question who this is.
pub open spec fn identity(world: World, caller: Option<JsonView>, version: Seq<char>) -> StepView {
    let focused = match (world.workspaces.active(), world.focus()) {
        (Some(w), Some(s)) => JsonView::Object(focused_fields(w.id, w.name, s)),
        _ => JsonView::Null,
    };
    StepView::Reply(
        JsonView::Object(
            map![
                "name"@ => text("limux-control"@),
                "protocol"@ => text("v1+v2"@),
                "version"@ => text(version),
                "focused"@ => focused,
                "caller"@ => match caller {
                    Some(caller) => caller,
                    None => focused,
                },
            ],
        ),
    )
}

fn identify(world: &World, caller: &Option<Json>, version: &str) -> (r: ControlStep)
    ensures
        r@ == identity(
            *world,
            match caller {
                Some(caller) => Some(caller@),
                None => None,
            },
            version@,
        ),
{
    let focused = match focused_surface_payload(&world.workspaces, world.focused.as_ref()) {
        Some(answer) => answer,
        None => Json::Null,
    };
    let caller = match caller {
        Some(caller) => caller.copy(),
        None => focused.copy(),
    };
    ControlStep::Reply(
        Ok(
            Json::object().with("name", Json::text("limux-control")).with(
                "protocol",
                Json::text("v1+v2"),
            ).with("version", Json::text(version)).with("focused", focused).with("caller", caller),
        ),
    )
}

fn fail_not_found(message: &str) -> (r: ControlStep)
    ensures
        r@ == not_found(message@),
{
    ControlStep::Reply(Err(BridgeError::not_found(message)))
}

fn fail_invalid(message: &str) -> (r: ControlStep)
    ensures
        r@ == invalid(message@),
{
    ControlStep::Reply(Err(BridgeError::invalid_params(message)))
}

/// The panes that the answer about a workspace lists.
pub open spec fn panes_answer(world: World, index: int) -> StepView {
    StepView::Reply(
        JsonView::Object(
            map![
                "panes"@ => JsonView::Array(
                    pane_rows(
                        world.contents@[index].panes@,
                        focused_pane(world.focus_at(index)),
                    ),
                ),
            ],
        ),
    )
}

/// The surfaces that the answer about a workspace lists.
pub open spec fn surfaces_answer(world: World, index: int, pane: Option<u32>) -> StepView {
    StepView::Reply(
        JsonView::Object(
            map![
                "surfaces"@ => JsonView::Array(
                    surface_rows(
                        surfaces_of(world.contents@[index].surfaces@, pane),
                        focused_surface(world.focus_at(index)),
                    ),
                ),
            ],
        ),
    )
}

/// The pane whose surfaces are asked for.
pub open spec fn pane_asked(pane_id: Seq<char>) -> Option<u32> {
    match pane_named(pane_id) {
        Some(pane) => Some(pane),
        None => number_in(pane_id),
    }
}

/// The answer to the question for the surfaces of a pane.
pub open spec fn pane_surfaces_step(
    world: World,
    index: int,
    pane_id: Option<Seq<char>>,
) -> StepView {
    match pane_id {
        None => surfaces_answer(world, index, None),
        Some(raw) => match pane_asked(raw) {
            None => invalid("pane.surfaces requires a valid pane_id"@),
            Some(pane) => if surfaces_of(world.contents@[index].surfaces@, Some(pane)).len() == 0 {
                not_found("pane not found"@)
            } else {
                surfaces_answer(world, index, Some(pane))
            },
        },
    }
}

fn list_surfaces(world: &World, index: usize, pane: Option<u32>) -> (r: Json)
    requires
        world.wf(),
        index < world.workspaces.list@.len(),
    ensures
        StepView::Reply(r@) == surfaces_answer(*world, index as int, pane),
{
    let ids = focused_ids_for_workspace(
        &world.workspaces,
        world.workspaces.list[index].id.as_str(),
        world.focused.as_ref(),
    );
    surface_list_payload(&world.contents[index].surfaces, &ids.surface_id, pane)
}

fn has_surface_of(surfaces: &Vec<SurfaceSummary>, pane: u32) -> (r: bool)
    ensures
        r == (surfaces_of(surfaces@, Some(pane)).len() > 0),
{
    let mut i: usize = 0;
    let mut found = false;
    assert(surfaces@.take(0).len() == 0);
    while i < surfaces.len()
        invariant
            i <= surfaces@.len(),
            found == (surfaces_of(surfaces@.take(i as int), Some(pane)).len() > 0),
        decreases surfaces@.len() - i,
    {
        assert(surfaces@.take(i + 1).drop_last() =~= surfaces@.take(i as int));
        if surfaces[i].pane_id == pane {
            found = true;
        }
        i += 1;
    }
    assert(surfaces@.take(i as int) =~= surfaces@);
    found
}

fn list_pane_surfaces(world: &World, index: usize, pane_id: &Option<String>) -> (r: ControlStep)
    requires
        world.wf(),
        index < world.workspaces.list@.len(),
    ensures
        r@ == pane_surfaces_step(*world, index as int, optional_text(*pane_id)),
{
    match pane_id {
        None => ControlStep::Reply(Ok(list_surfaces(world, index, None))),
        Some(raw) => {
            let pane = match parse_pane_handle(raw.as_str()) {
                Some(pane) => Some(pane),
                None => parse_number(raw.as_str()),
            };
            match pane {
                None => fail_invalid("pane.surfaces requires a valid pane_id"),
                Some(pane) => {
                    if !has_surface_of(&world.contents[index].surfaces, pane) {
                        return fail_not_found("pane not found");
                    }
                    ControlStep::Reply(Ok(list_surfaces(world, index, Some(pane))))
                },
            }
        },
    }
}

/// The numbers of panes.
pub open spec fn pane_numbers(panes: Seq<PaneSummary>) -> Seq<u32> {
    Seq::new(panes.len(), |i: int| panes[i].pane_id)
}

/// The pane of the first surface with an identifier.
pub open spec fn pane_holding(surfaces: Seq<SurfaceSummary>, id: Seq<char>) -> Option<u32>
    decreases surfaces.len(),
{
    if surfaces.len() == 0 {
        None
    } else {
        match pane_holding(surfaces.drop_last(), id) {
            Some(pane) => Some(pane),
            None => if surfaces.last().surface_id@ == id {
                Some(surfaces.last().pane_id)
            } else {
                None
            },
        }
    }
}

proof fn lemma_pane_holding(
    surfaces: Seq<SurfaceSummary>,
    pairs: Seq<(String, u32)>,
    id: Seq<char>,
)
    requires
        pairs.len() == surfaces.len(),
        forall|i: int|
            0 <= i < pairs.len() ==> (#[trigger] pairs[i]).0@ == surfaces[i].surface_id@ && pairs[i].1
                == surfaces[i].pane_id,
    ensures
        crate::window::targets::pane_of_surface(pairs, id) == pane_holding(surfaces, id),
    decreases pairs.len(),
{
    if pairs.len() > 0 {
        lemma_pane_holding(surfaces.drop_last(), pairs.drop_last(), id);
    }
}

/// The pane to split in a workspace, or why there is none.
pub open spec fn split_source(
    world: World,
    index: int,
    surface: Option<Seq<char>>,
    pane: Option<u32>,
) -> Result<u32, PaneCreateFailure> {
    let panes = pane_numbers(world.contents@[index].panes@);
    let surfaces = world.contents@[index].surfaces@;
    let focused = focused_pane(world.focus_at(index));
    let active = index == world.workspaces.active_idx;
    let listed = |p: u32| if panes.contains(p) {
        Ok(p)
    } else {
        Err(PaneCreateFailure::Pane(p))
    };
    if panes.len() == 0 {
        Err(PaneCreateFailure::NoPanes)
    } else if let Some(surface) = surface {
        match pane_holding(surfaces, crate::window::handles::named(surface, "surface:"@)) {
            Some(p) => listed(p),
            None => Err(PaneCreateFailure::Surface(surface)),
        }
    } else if let Some(pane) = pane {
        listed(pane)
    } else {
        match focused {
            Some(focused) if active && panes.contains(focused) => Ok(focused),
            _ => Ok(panes[0]),
        }
    }
}

/// What could not be found for a new pane.
pub ghost enum PaneCreateFailure {
    Surface(Seq<char>),
    Pane(u32),
    NoPanes,
}

fn numbers_of(panes: &Vec<PaneSummary>) -> (r: Vec<u32>)
    ensures
        r@ == pane_numbers(panes@),
{
    let mut numbers: Vec<u32> = Vec::new();
    let mut i: usize = 0;
    while i < panes.len()
        invariant
            i <= panes@.len(),
            numbers@ =~= pane_numbers(panes@).take(i as int),
        decreases panes@.len() - i,
    {
        numbers.push(panes[i].pane_id);
        i += 1;
    }
    assert(numbers@ =~= pane_numbers(panes@));
    numbers
}

fn surfaces_with_panes(surfaces: &Vec<SurfaceSummary>) -> (r: Vec<(String, u32)>)
    ensures
        r@.len() == surfaces@.len(),
        forall|i: int|
            0 <= i < r@.len() ==> (#[trigger] r@[i]).0@ == surfaces@[i].surface_id@ && r@[i].1
                == surfaces@[i].pane_id,
{
    let mut pairs: Vec<(String, u32)> = Vec::new();
    let mut i: usize = 0;
    while i < surfaces.len()
        invariant
            i <= surfaces@.len(),
            pairs@.len() == i,
            forall|j: int|
                0 <= j < i ==> (#[trigger] pairs@[j]).0@ == surfaces@[j].surface_id@ && pairs@[j].1
                    == surfaces@[j].pane_id,
        decreases surfaces@.len() - i,
    {
        pairs.push((surfaces[i].surface_id.clone(), surfaces[i].pane_id));
        i += 1;
    }
    pairs
}

/// The pane to split for a new one, and how.
#[derive(Debug, PartialEq)]
pub struct ResolvedPaneCreateTarget {
    pub workspace: usize,
    pub pane_id: u32,
    pub placement: PaneCreateSplitPlacement,
}

/// The pane to split for a new one, and how. It has to be among the panes of the
/// workspace.
pub fn resolve_pane_create_target(
    world: &World,
    target: &WorkspaceTarget,
    surface_id: Option<&str>,
    pane_id: Option<u32>,
    direction: PaneCreateDirection,
) -> (r: Result<ResolvedPaneCreateTarget, PaneCreateTargetError>)
    requires
        world.wf(),
    ensures
        match target_index(world.workspaces, *target) {
            None => r matches Err(error) && error is WorkspaceNotFound,
            Some(index) => {
                &&& 0 <= index < world.workspaces.list@.len()
                &&& match split_source(*world, index, optional_str(surface_id), pane_id) {
                    Ok(pane) => r matches Ok(resolved) && resolved.workspace == index
                        && resolved.pane_id == pane && resolved.placement == placement(direction),
                    Err(PaneCreateFailure::Surface(surface)) => r matches Err(
                        PaneCreateTargetError::InvalidSurfaceId(id),
                    ) && id@ == surface,
                    Err(PaneCreateFailure::Pane(pane)) => r matches Err(
                        PaneCreateTargetError::InvalidPaneId(id),
                    ) && id == pane,
                    Err(PaneCreateFailure::NoPanes) => r matches Err(error) && error is NoPanes,
                }
            },
        },
{
    let index = match workspace_index_for_target(&world.workspaces, target) {
        Some(index) => index,
        None => {
            return Err(PaneCreateTargetError::WorkspaceNotFound);
        },
    };
    let contents = &world.contents[index];
    let pane_ids = numbers_of(&contents.panes);
    let surfaces = surfaces_with_panes(&contents.surfaces);
    let active = index == world.workspaces.active_idx;
    let ids = focused_ids_for_workspace(
        &world.workspaces,
        world.workspaces.list[index].id.as_str(),
        world.focused.as_ref(),
    );
    proof {
        if let Some(surface) = surface_id {
            lemma_pane_holding(
                contents.surfaces@,
                surfaces@,
                crate::window::handles::named(surface@, "surface:"@),
            );
        }
    }
    let pane = match resolve_pane_create_source_id(
        surface_id,
        pane_id,
        if active {
            ids.pane_id
        } else {
            None
        },
        active,
        &pane_ids,
        &surfaces,
    ) {
        Ok(pane) => pane,
        Err(error) => {
            return Err(error);
        },
    };
    if !lists_pane(&pane_ids, pane) {
        return Err(PaneCreateTargetError::InvalidPaneId(pane));
    }
    Ok(
        ResolvedPaneCreateTarget {
            workspace: index,
            pane_id: pane,
            placement: pane_create_split_placement(direction),
        },
    )
}

/// The pane that a request names: `Err` for a handle that names none.
pub open spec fn requested_pane(request: PaneCreateRequest) -> Result<Option<u32>, ()> {
    match request.source_pane_id {
        None => Ok(None),
        Some(raw) => match pane_named(raw@) {
            Some(pane) => Ok(Some(pane)),
            None => Err(()),
        },
    }
}

/// What the request for a new pane comes to.
pub open spec fn create_pane_step(world: World, request: PaneCreateRequest) -> StepView {
    if request.pane_type != PaneCreateType::Terminal {
        invalid("pane.create live GTK bridge supports type=terminal only"@)
    } else {
        match requested_pane(request) {
            Err(_) => invalid("pane.create requires a valid pane_id"@),
            Ok(pane) => match target_index(world.workspaces, request.target) {
                None => not_found("workspace not found"@),
                Some(index) => match split_source(
                    world,
                    index,
                    optional_text(request.source_surface_id),
                    pane,
                ) {
                    Err(PaneCreateFailure::Surface(_)) => not_found("surface not found"@),
                    Err(_) => not_found("pane not found"@),
                    Ok(pane) => {
                        let id = world.workspaces.views()[index].id;
                        let first = first_where(world.workspaces.views(), has_id(id))->0;
                        StepView::SplitPane {
                            workspace_id: id,
                            workspace_name: world.workspaces.views()[first].name,
                            pane_id: pane,
                            placement: placement(request.direction),
                            command: optional_text(request.command),
                        }
                    },
                },
            },
        }
    }
}

fn create_pane(world: &World, request: &PaneCreateRequest) -> (r: ControlStep)
    requires
        world.wf(),
    ensures
        r@ == create_pane_step(*world, *request),
{
    match request.pane_type {
        PaneCreateType::Terminal => {},
        _ => {
            return fail_invalid("pane.create live GTK bridge supports type=terminal only");
        },
    }
    let source_pane_id = match &request.source_pane_id {
        None => None,
        Some(raw) => match parse_pane_handle(raw.as_str()) {
            Some(pane) => Some(pane),
            None => {
                return fail_invalid("pane.create requires a valid pane_id");
            },
        },
    };
    let surface_id: Option<&str> = match &request.source_surface_id {
        Some(id) => Some(id.as_str()),
        None => None,
    };
    let resolved = match resolve_pane_create_target(
        world,
        &request.target,
        surface_id,
        source_pane_id,
        request.direction,
    ) {
        Ok(resolved) => resolved,
        Err(error) => {
            return ControlStep::Reply(Err(pane_create_target_error(&error)));
        },
    };
    let id = world.workspaces.list[resolved.workspace].id.as_str();
    assert(world.workspaces.views()[resolved.workspace as int].id == id@);
    match index_of_id(&world.workspaces.list, id) {
        Some(first) => {
            assert(world.workspaces.views()[first as int].name
                == world.workspaces.list@[first as int].name@);
            ControlStep::SplitPane {
                workspace_id: id.to_owned(),
                workspace_name: world.workspaces.list[first].name.clone(),
                pane_id: resolved.pane_id,
                placement: resolved.placement,
                command: copy_optional(&request.command),
            }
        },
        None => {
            proof {
                crate::window::workspaces::lemma_first_where(
                    world.workspaces.views(),
                    has_id(id@),
                );
                assert(!has_id(id@)(world.workspaces.views()[resolved.workspace as int]));
                assert(false);
            }
            fail_not_found("workspace not found")
        },
    }
}

/// The folder of a new workspace, and its title.
pub open spec fn new_workspace(
    name: Option<Seq<char>>,
    cwd: Option<Seq<char>>,
    home: Option<Seq<char>>,
) -> (Seq<char>, Seq<char>) {
    let folder = match cwd {
        Some(cwd) => cwd,
        None => match home {
            Some(home) => home,
            None => Seq::empty(),
        },
    };
    let title = match name {
        Some(name) => name,
        None => match file_name(folder) {
            Some(name) => name,
            None => "workspace"@,
        },
    };
    (folder, title)
}

fn create_workspace(
    name: &Option<String>,
    cwd: &Option<String>,
    command: &Option<String>,
    home: Option<&str>,
) -> (r: ControlStep)
    ensures
        ({
            let (folder, title) = new_workspace(
                optional_text(*name),
                optional_text(*cwd),
                optional_str(home),
            );
            r@ == (StepView::CreateWorkspace {
                title,
                folder_path: folder,
                command: optional_text(*command),
            })
        }),
{
    let folder: String = match cwd {
        Some(cwd) => cwd.clone(),
        None => match home {
            Some(home) => home.to_owned(),
            None => String::new(),
        },
    };
    let title = match name {
        Some(name) => name.clone(),
        None => folder_name(folder.as_str(), "workspace"),
    };
    ControlStep::CreateWorkspace { title, folder_path: folder, command: copy_optional(command) }
}

/// What closing a workspace comes to: the last one stays.
pub open spec fn close_step(world: World, target: WorkspaceTarget) -> StepView {
    if world.workspaces.list@.len() <= 1 {
        StepView::Failure(ErrorKind::Conflict, "cannot close workspace"@)
    } else {
        match target_index(world.workspaces, target) {
            None => not_found("workspace not found"@),
            Some(index) => StepView::CloseWorkspace {
                workspace_id: world.workspaces.views()[index].id,
                answer: JsonView::Object(
                    workspace_answer(
                        index as usize,
                        world.workspaces.active_idx,
                        world.workspaces.views()[index],
                    ),
                ),
            },
        }
    }
}

fn close(world: &World, target: &WorkspaceTarget) -> (r: ControlStep)
    requires
        world.wf(),
    ensures
        r@ == close_step(*world, *target),
{
    if world.workspaces.list.len() <= 1 {
        return ControlStep::Reply(Err(BridgeError::conflict("cannot close workspace")));
    }
    match workspace_index_for_target(&world.workspaces, target) {
        None => fail_not_found("workspace not found"),
        Some(index) => match workspace_payload(&world.workspaces, index) {
            Some(answer) => {
                assert(world.workspaces.views()[index as int]
                    == world.workspaces.list@[index as int]@);
                ControlStep::CloseWorkspace {
                    workspace_id: world.workspaces.list[index].id.clone(),
                    answer,
                }
            },
            None => fail_not_found("workspace not found"),
        },
    }
}

/// The health of the surfaces of a workspace, or of the one that is asked for.
pub open spec fn health_step(world: World, index: int, hint: Option<Seq<char>>) -> StepView {
    let wanted = match hint {
        Some(hint) => Some(crate::window::handles::named(hint, "surface:"@)),
        None => None,
    };
    let listed = surfaces_named(world.contents@[index].surfaces@, wanted);
    if hint is Some && listed.len() == 0 {
        not_found("surface not found"@)
    } else {
        StepView::Reply(
            JsonView::Object(
                map![
                    "surfaces"@ => JsonView::Array(
                        health_rows(listed, focused_surface(world.focus_at(index))),
                    ),
                ],
            ),
        )
    }
}

fn surface_health(world: &World, index: usize, hint: &Option<String>) -> (r: ControlStep)
    requires
        world.wf(),
        index < world.workspaces.list@.len(),
    ensures
        r@ == health_step(*world, index as int, optional_text(*hint)),
{
    let ids = focused_ids_for_workspace(
        &world.workspaces,
        world.workspaces.list[index].id.as_str(),
        world.focused.as_ref(),
    );
    let hint: Option<&str> = match hint {
        Some(hint) => Some(hint.as_str()),
        None => None,
    };
    ControlStep::Reply(
        surface_health_payload(&world.contents[index].surfaces, &ids.surface_id, hint),
    )
}

/// What a command about one workspace comes to, given the workspace's position.
pub open spec fn workspace_step(world: World, index: int, command: ControlCommand) -> StepView {
    match command {
        ControlCommand::ListPanes { .. } => panes_answer(world, index),
        ControlCommand::ListPaneSurfaces { pane_id, .. } => pane_surfaces_step(
            world,
            index,
            optional_text(pane_id),
        ),
        ControlCommand::ListSurfaces { .. } => surfaces_answer(world, index, None),
        ControlCommand::SurfaceHealth { surface_hint, .. } => health_step(
            world,
            index,
            optional_text(surface_hint),
        ),
        ControlCommand::SelectWorkspace { .. } => StepView::SelectWorkspace(index),
        ControlCommand::RenameWorkspace { title, .. } => StepView::RenameWorkspace {
            index,
            title: title@,
        },
        ControlCommand::SendText { surface_hint, text, .. } => StepView::UseTerminal {
            workspace: index,
            hint: match surface_hint {
                Some(hint) => Some(hint@),
                None => focused_surface(world.focus_at(index)),
            },
            wanted: UseView::SendText(text@),
        },
        ControlCommand::ReadSurfaceText { surface_hint, .. } => StepView::UseTerminal {
            workspace: index,
            hint: optional_text(surface_hint),
            wanted: UseView::ReadText,
        },
        ControlCommand::SendKey { surface_hint, key, .. } => StepView::UseTerminal {
            workspace: index,
            hint: optional_text(surface_hint),
            wanted: UseView::SendKey(key@),
        },
        ControlCommand::CreateNotification { surface_hint, title, subtitle, body, .. } =>
            StepView::Notify {
            workspace: index,
            surface_hint: optional_text(surface_hint),
            title: title@,
            subtitle: subtitle@,
            body: body@,
        },
        _ => not_found("workspace not found"@),
    }
}

/// The workspace that a command is about, where it is about one.
pub open spec fn command_target(command: ControlCommand) -> Option<WorkspaceTarget> {
    match command {
        ControlCommand::ListPanes { target } => Some(target),
        ControlCommand::ListPaneSurfaces { target, .. } => Some(target),
        ControlCommand::ListSurfaces { target } => Some(target),
        ControlCommand::SurfaceHealth { target, .. } => Some(target),
        ControlCommand::SelectWorkspace { target } => Some(target),
        ControlCommand::RenameWorkspace { target, .. } => Some(target),
        ControlCommand::SendText { target, .. } => Some(target),
        ControlCommand::ReadSurfaceText { target, .. } => Some(target),
        ControlCommand::SendKey { target, .. } => Some(target),
        ControlCommand::CreateNotification { target, .. } => Some(target),
        _ => None,
    }
}

/// What a command comes to.
pub open spec fn control_step(
    world: World,
    command: ControlCommand,
    home: Option<Seq<char>>,
    version: Seq<char>,
) -> StepView {
    match command {
        ControlCommand::Identify { caller } => identity(
            world,
            match caller {
                Some(caller) => Some(caller@),
                None => None,
            },
            version,
        ),
        ControlCommand::CurrentWorkspace => match world.workspaces.active() {
            Some(w) => StepView::Reply(
                JsonView::Object(
                    workspace_answer(world.workspaces.active_idx, world.workspaces.active_idx, w),
                ),
            ),
            None => not_found("no active workspace"@),
        },
        ControlCommand::ListWorkspaces => StepView::Reply(
            JsonView::Object(
                map!["workspaces"@ => JsonView::Array(workspace_rows(world.workspaces))],
            ),
        ),
        ControlCommand::CreatePane { request } => create_pane_step(world, request),
        ControlCommand::CreateWorkspace { name, cwd, command } => {
            let (folder, title) = new_workspace(optional_text(name), optional_text(cwd), home);
            StepView::CreateWorkspace {
                title,
                folder_path: folder,
                command: optional_text(command),
            }
        },
        ControlCommand::CloseWorkspace { target } => close_step(world, target),
        _ => match command_target(command) {
            Some(target) => match target_index(world.workspaces, target) {
                Some(index) => workspace_step(world, index, command),
                None => not_found("workspace not found"@),
            },
            None => not_found("workspace not found"@),
        },
    }
}

fn handle_workspace_command(world: &World, index: usize, command: &ControlCommand) -> (r:
    ControlStep)
    requires
        world.wf(),
        index < world.workspaces.list@.len(),
    ensures
        r@ == workspace_step(*world, index as int, *command),
        *command matches ControlCommand::SendText { surface_hint: Some(hint), text, .. } ==> r@ == (
        StepView::UseTerminal {
            workspace: index as int,
            hint: Some(hint@),
            wanted: UseView::SendText(text@),
        }),
{
    match command {
        ControlCommand::ListPanes { .. } => {
            let ids = focused_ids_for_workspace(
                &world.workspaces,
                world.workspaces.list[index].id.as_str(),
                world.focused.as_ref(),
            );
            ControlStep::Reply(Ok(pane_list_payload(&world.contents[index].panes, ids.pane_id)))
        },
        ControlCommand::ListPaneSurfaces { pane_id, .. } => list_pane_surfaces(
            world,
            index,
            pane_id,
        ),
        ControlCommand::ListSurfaces { .. } => ControlStep::Reply(
            Ok(list_surfaces(world, index, None)),
        ),
        ControlCommand::SurfaceHealth { surface_hint, .. } => surface_health(
            world,
            index,
            surface_hint,
        ),
        ControlCommand::SelectWorkspace { .. } => ControlStep::SelectWorkspace(index),
        ControlCommand::RenameWorkspace { title, .. } => ControlStep::RenameWorkspace {
            index,
            title: title.clone(),
        },
        ControlCommand::SendText { surface_hint, text, .. } => {
            let ids = focused_ids_for_workspace(
                &world.workspaces,
                world.workspaces.list[index].id.as_str(),
                world.focused.as_ref(),
            );
            let hint = match surface_hint {
                Some(hint) => Some(hint.clone()),
                None => ids.surface_id,
            };
            ControlStep::UseTerminal {
                workspace: index,
                hint,
                wanted: TerminalUse::SendText(text.clone()),
            }
        },
        ControlCommand::ReadSurfaceText { surface_hint, .. } => ControlStep::UseTerminal {
            workspace: index,
            hint: copy_optional(surface_hint),
            wanted: TerminalUse::ReadText,
        },
        ControlCommand::SendKey { surface_hint, key, .. } => ControlStep::UseTerminal {
            workspace: index,
            hint: copy_optional(surface_hint),
            wanted: TerminalUse::SendKey(key.clone()),
        },
        ControlCommand::CreateNotification { surface_hint, title, subtitle, body, .. } =>
            ControlStep::Notify {
            workspace: index,
            surface_hint: copy_optional(surface_hint),
            title: title.clone(),
            subtitle: subtitle.clone(),
            body: body.clone(),
        },
        _ => fail_not_found("workspace not found"),
    }
}

fn target_of(command: &ControlCommand) -> (r: Option<&WorkspaceTarget>)
    ensures
        command_target(*command) == (match r {
            Some(target) => Some(*target),
            None => None,
        }),
{
    match command {
        ControlCommand::ListPanes { target } => Some(target),
        ControlCommand::ListPaneSurfaces { target, .. } => Some(target),
        ControlCommand::ListSurfaces { target } => Some(target),
        ControlCommand::SurfaceHealth { target, .. } => Some(target),
        ControlCommand::SelectWorkspace { target } => Some(target),
        ControlCommand::RenameWorkspace { target, .. } => Some(target),
        ControlCommand::SendText { target, .. } => Some(target),
        ControlCommand::ReadSurfaceText { target, .. } => Some(target),
        ControlCommand::SendKey { target, .. } => Some(target),
        ControlCommand::CreateNotification { target, .. } => Some(target),
        _ => None,
    }
}

/// What a command comes to. `home` is the user's home directory, if it is known;
/// `version` is what the application says of itself.
pub fn handle_control_command(
    world: &World,
    command: &ControlCommand,
    home: Option<&str>,
    version: &str,
) -> (r: ControlStep)
    requires
        world.wf(),
    ensures
        r@ == control_step(*world, *command, optional_str(home), version@),
{
    match command {
        ControlCommand::Identify { caller } => identify(world, caller, version),
        ControlCommand::CurrentWorkspace => match workspace_payload(
            &world.workspaces,
            world.workspaces.active_idx,
        ) {
            Some(answer) => ControlStep::Reply(Ok(answer)),
            None => fail_not_found("no active workspace"),
        },
        ControlCommand::ListWorkspaces => {
            let rows = workspace_list_rows(&world.workspaces);
            ControlStep::Reply(Ok(Json::object().with("workspaces", Json::array(rows))))
        },
        ControlCommand::CreatePane { request } => create_pane(world, request),
        ControlCommand::CreateWorkspace { name, cwd, command } => create_workspace(
            name,
            cwd,
            command,
            home,
        ),
        ControlCommand::CloseWorkspace { target } => close(world, target),
        _ => match target_of(command) {
            Some(target) => match workspace_index_for_target(&world.workspaces, target) {
                Some(index) => handle_workspace_command(world, index, command),
                None => fail_not_found("workspace not found"),
            },
            None => fail_not_found("workspace not found"),
        },
    }
}

/// What came of splitting a pane.
#[derive(Debug, PartialEq)]
pub enum SplitOutcome {
    /// There is no room for another pane.
    NoRoom,
    /// The new pane shows nothing.
    NoSurface,
    Surface(SurfaceSummary),
}

/// What the request for a new pane comes to once the pane is there.
#[derive(Debug, PartialEq)]
pub enum PaneCreatedStep {
    Reply(Result<Json, BridgeError>),
    /// Run a command in the new pane, then answer: see [`CommandRun`].
    RunCommand { surface_id: String, command: String, answer: Json },
}

/// What the request for a new pane comes to once the pane is there, or could not
/// be made.
pub fn pane_created(
    workspace_id: &str,
    workspace_name: &str,
    outcome: &SplitOutcome,
    command: &Option<String>,
) -> (r: PaneCreatedStep)
    ensures
        match outcome {
            SplitOutcome::NoRoom => r matches PaneCreatedStep::Reply(Err(error)) && error.is(
                ErrorKind::InvalidParams,
                "not enough room to split pane"@,
            ),
            SplitOutcome::NoSurface => r matches PaneCreatedStep::Reply(Err(error)) && error.is(
                ErrorKind::Internal,
                "pane.create did not produce a terminal surface"@,
            ),
            SplitOutcome::Surface(surface) => {
                let fields = JsonView::Object(
                    pane_create_fields(workspace_id@, workspace_name@, surface@),
                );
                match command {
                    None => r matches PaneCreatedStep::Reply(Ok(answer)) && answer@ == fields,
                    Some(command) => {
                        &&& r matches PaneCreatedStep::RunCommand {
                            surface_id,
                            command: wanted,
                            answer,
                        }
                        &&& surface_id@ == surface.surface_id@
                        &&& wanted@ == command@
                        &&& answer@ == fields
                    },
                }
            },
        },
{
    match outcome {
        SplitOutcome::NoRoom => PaneCreatedStep::Reply(
            Err(BridgeError::invalid_params("not enough room to split pane")),
        ),
        SplitOutcome::NoSurface => PaneCreatedStep::Reply(
            Err(BridgeError::internal("pane.create did not produce a terminal surface")),
        ),
        SplitOutcome::Surface(surface) => {
            let answer = pane_create_response_payload(workspace_id, workspace_name, surface);
            match command {
                None => PaneCreatedStep::Reply(Ok(answer)),
                Some(command) => PaneCreatedStep::RunCommand {
                    surface_id: surface.surface_id.clone(),
                    command: command.clone(),
                    answer,
                },
            }
        },
    }
}

/// Milliseconds between two tries to run a command in a new pane.
pub const PANE_CREATE_COMMAND_READY_INTERVAL_MS: u64 = 50;

/// Tries to run a command in a new pane.
pub const PANE_CREATE_COMMAND_READY_ATTEMPTS: u32 = 40;

/// The running of a command in a new pane: its terminal takes a while to be ready,
/// so text and key are tried again and again.
#[derive(Clone, Copy, Debug, PartialEq, Eq, Structural)]
pub struct CommandRun {
    pub attempts: u32,
    pub command_sent: bool,
}

/// What a try comes to.
#[derive(Clone, Copy, Debug, PartialEq, Eq, Structural)]
pub enum RunOutcome {
    /// The command runs: answer.
    Running,
    /// Try again.
    Again,
    /// Give up: answer with the error.
    GaveUp,
}

impl CommandRun {
    /// Fewer tries were made than are allowed.
    pub open spec fn wf(self) -> bool {
        self.attempts < PANE_CREATE_COMMAND_READY_ATTEMPTS
    }

    pub fn new() -> (r: Self)
        ensures
            r == (CommandRun { attempts: 0, command_sent: false }),
            r.wf(),
    {
        CommandRun { attempts: 0, command_sent: false }
    }

    /// Whether the text is to be sent in this try: once, and to the right surface.
    pub fn sends_text(&self, is_surface: bool) -> (r: bool)
        ensures
            r == (is_surface && !self.command_sent),
    {
        is_surface && !self.command_sent
    }

    /// Whether the Enter key is to be sent in this try: after the text. `taken`
    /// says whether text that was sent in this try was taken.
    pub fn sends_enter(&self, has_terminal: bool, taken: bool) -> (r: bool)
        ensures
            r == (has_terminal && (self.command_sent || taken)),
    {
        has_terminal && (self.command_sent || taken)
    }

    /// The end of a try: whether the text was taken in it, and whether the Enter
    /// key was.
    pub fn end_try(&mut self, taken: bool, entered: bool) -> (r: RunOutcome)
        requires
            old(self).wf(),
        ensures
            *final(self) == (CommandRun {
                attempts: (old(self).attempts + 1) as u32,
                command_sent: old(self).command_sent || taken,
            }),
            r == (if entered && final(self).command_sent {
                RunOutcome::Running
            } else if final(self).attempts >= PANE_CREATE_COMMAND_READY_ATTEMPTS {
                RunOutcome::GaveUp
            } else {
                RunOutcome::Again
            }),
            r == RunOutcome::Again ==> final(self).wf(),
            r == RunOutcome::Running ==> entered && (taken || old(self).command_sent),
            entered && taken ==> r == RunOutcome::Running,
            old(self).command_sent ==> final(self).command_sent,
    {
        self.attempts = self.attempts + 1;
        if taken {
            self.command_sent = true;
        }
        if entered && self.command_sent {
            RunOutcome::Running
        } else if self.attempts >= PANE_CREATE_COMMAND_READY_ATTEMPTS {
            RunOutcome::GaveUp
        } else {
            RunOutcome::Again
        }
    }
}

/// The error of a command that never ran.
pub fn command_gave_up(surface_id: &str) -> (r: BridgeError)
    ensures
        r.is(
            ErrorKind::Internal,
            "pane.create command target surface "@ + surface_id@ + " never became writable"@,
        ),
{
    let mut message = "pane.create command target surface ".to_owned();
    message.append(surface_id);
    message.append(" never became writable");
    BridgeError { kind: ErrorKind::Internal, message }
}

/// Milliseconds between opening a workspace and running a command in it.
pub const WORKSPACE_COMMAND_DELAY_MS: u64 = 500;

/// What opening a workspace comes to.
#[derive(Debug, PartialEq)]
pub struct WorkspaceCreated {
    pub reply: Result<Json, BridgeError>,
    /// The workspace to run a command in, and the texts that its terminal is sent
    /// for that, one after the other.
    pub run: Option<(String, Vec<String>)>,
}

/// What opening a workspace comes to: the answer is the workspace that is shown
/// now, and the command runs in it: it is sent to the terminal, then a line end.
pub fn workspace_created(workspaces: &Workspaces, command: Option<String>) -> (r: WorkspaceCreated)
    ensures
        match workspaces.active() {
            Some(w) => {
                &&& r.reply matches Ok(answer) && answer@ == JsonView::Object(
                    workspace_answer(workspaces.active_idx, workspaces.active_idx, w),
                )
                &&& match command {
                    Some(command) => {
                        &&& r.run matches Some(run)
                        &&& run.0@ == w.id
                        &&& run.1@.len() == 2
                        &&& run.1@[0]@ == command@
                        &&& run.1@[1]@ == "\n"@
                    },
                    None => r.run is None,
                }
            },
            None => r.run is None && (r.reply matches Err(error) && error.is(
                ErrorKind::Internal,
                "workspace.create did not produce a workspace"@,
            )),
        },
{
    match workspace_payload(workspaces, workspaces.active_idx) {
        Some(answer) => {
            let run = match command {
                Some(command) => {
                    let mut texts: Vec<String> = Vec::new();
                    texts.push(command);
                    texts.push("\n".to_owned());
                    Some((workspaces.list[workspaces.active_idx].id.clone(), texts))
                },
                None => None,
            };
            WorkspaceCreated { reply: Ok(answer), run }
        },
        None => WorkspaceCreated {
            reply: Err(BridgeError::internal("workspace.create did not produce a workspace")),
            run: None,
        },
    }
}

/// The answer about the workspace at a position.
pub open spec fn workspace_reply(
    workspaces: Workspaces,
    index: usize,
    r: Result<Json, BridgeError>,
) -> bool {
    if index < workspaces.list@.len() {
        r matches Ok(answer) && answer@ == JsonView::Object(
            workspace_answer(index, workspaces.active_idx, workspaces.list@[index as int]@),
        )
    } else {
        r matches Err(error) && error.is(ErrorKind::NotFound, "workspace not found"@)
    }
}

/// The answer once a workspace is shown.
pub fn workspace_selected(workspaces: &Workspaces, index: usize) -> (r: Result<Json, BridgeError>)
    ensures
        workspace_reply(*workspaces, index, r),
{
    match workspace_payload(workspaces, index) {
        Some(answer) => Ok(answer),
        None => Err(BridgeError::not_found("workspace not found")),
    }
}

/// What renaming a workspace comes to.
#[derive(Debug, PartialEq)]
pub struct WorkspaceRenamed {
    pub reply: Result<Json, BridgeError>,
    /// The session is to be saved.
    pub save_session: bool,
}

/// Renames a workspace and answers with it. The session is saved then.
pub fn rename_workspace(workspaces: &mut Workspaces, index: usize, title: &str) -> (r:
    WorkspaceRenamed)
    requires
        index < old(workspaces).list@.len(),
    ensures
        final(workspaces).active_idx == old(workspaces).active_idx,
        final(workspaces).views() == old(workspaces).views().update(
            index as int,
            WorkspaceView { name: title@, ..old(workspaces).views()[index as int] },
        ),
        r.save_session,
        r.reply matches Ok(answer) && answer@ == JsonView::Object(
            workspace_answer(
                index,
                old(workspaces).active_idx,
                WorkspaceView { name: title@, ..old(workspaces).views()[index as int] },
            ),
        ),
{
    workspaces.rename_at(index, title);
    proof {
        assert(workspaces.views().len() == old(workspaces).views().len());
        assert(workspaces.list@.len() == workspaces.views().len());
        assert(workspaces.views()[index as int] == workspaces.list@[index as int]@);
    }
    WorkspaceRenamed { reply: workspace_selected(workspaces, index), save_session: true }
}

/// The names of a workspace and a surface in an answer.
pub open spec fn surface_answer(workspace: Seq<char>, surface: Seq<char>) -> Map<
    Seq<char>,
    JsonView,
> {
    map![
        "workspace_id"@ => text(workspace),
        "workspace_ref"@ => text(workspace_handle(workspace)),
        "surface_id"@ => text(surface),
        "surface_ref"@ => text(surface_handle(surface)),
    ]
}

fn surface_json(workspace_id: &str, surface_id: &str) -> (r: Json)
    ensures
        r@ == JsonView::Object(surface_answer(workspace_id@, surface_id@)),
{
    Json::object().with("workspace_id", Json::text(workspace_id)).with(
        "workspace_ref",
        Json::Text(workspace_ref(workspace_id)),
    ).with("surface_id", Json::text(surface_id)).with(
        "surface_ref",
        Json::Text(surface_ref(surface_id)),
    )
}

/// Whether a terminal was found.
pub fn terminal_found(surface_id: &Option<String>) -> (r: Result<(), BridgeError>)
    ensures
        r is Ok == (*surface_id is Some),
        r matches Err(error) ==> error.is(ErrorKind::NotFound, "terminal surface not found"@),
{
    match surface_id {
        Some(_) => Ok(()),
        None => Err(BridgeError::not_found("terminal surface not found")),
    }
}

/// What came of using a terminal.
#[derive(Debug, PartialEq)]
pub enum TerminalUsed {
    /// The text was sent.
    SentText,
    /// The text on the screen, if it could be read.
    ReadText(Option<String>),
    /// Whether the key was sent.
    SentKey(bool),
}

/// The answer once a terminal was used. Text always counts as sent.
pub fn terminal_used(workspace_id: &str, surface_id: &str, used: &TerminalUsed) -> (r: Result<
    Json,
    BridgeError,
>)
    ensures
        ({
            let names = surface_answer(workspace_id@, surface_id@);
            match used {
                TerminalUsed::SentText => r matches Ok(answer) && answer@ == JsonView::Object(
                    names.insert("ok"@, JsonView::Bool(true)),
                ),
                TerminalUsed::ReadText(Some(read)) => r matches Ok(answer) && answer@
                    == JsonView::Object(names.insert("text"@, text(read@))),
                TerminalUsed::ReadText(None) => r matches Err(error) && error.is(
                    ErrorKind::Internal,
                    "surface.read_text failed"@,
                ),
                TerminalUsed::SentKey(true) => r matches Ok(answer) && answer@
                    == JsonView::Object(names.insert("ok"@, JsonView::Bool(true))),
                TerminalUsed::SentKey(false) => r matches Err(error) && error.is(
                    ErrorKind::InvalidParams,
                    "unsupported key"@,
                ),
            }
        }),
{
    let names = surface_json(workspace_id, surface_id);
    match used {
        TerminalUsed::SentText => Ok(names.with("ok", Json::Bool(true))),
        TerminalUsed::ReadText(Some(read)) => Ok(names.with("text", Json::text(read.as_str()))),
        TerminalUsed::ReadText(None) => Err(BridgeError::internal("surface.read_text failed")),
        TerminalUsed::SentKey(true) => Ok(names.with("ok", Json::Bool(true))),
        TerminalUsed::SentKey(false) => Err(BridgeError::invalid_params("unsupported key")),
    }
}

/// What a notification that was asked for comes to.
#[derive(Debug, PartialEq)]
pub struct NotificationPlan {
    /// The workspace that it belongs to.
    pub workspace: usize,
    pub message: String,
    pub target: DesktopNotificationTarget,
    /// It comes from the tab in use if this tab can be seen.
    pub focused_if_visible: bool,
    pub answer: Json,
}

/// The answer to the request for a notification.
pub open spec fn notification_answer(
    workspace: Seq<char>,
    title: Seq<char>,
    subtitle: Seq<char>,
    body: Seq<char>,
) -> Map<Seq<char>, JsonView> {
    map![
        "ok"@ => JsonView::Bool(true),
        "workspace_id"@ => text(workspace),
        "workspace_ref"@ => text(workspace_handle(workspace)),
        "title"@ => text(title),
        "subtitle"@ => text(subtitle),
        "body"@ => text(body),
    ]
}

/// What a notification that was asked for comes to. The workspace and `tab` are
/// those that [`crate::window::notifications::resolve_notification_tab_target`]
/// gives where a tab was named; without a tab the workspace is the one that was
/// asked for.
pub fn notification_plan(
    workspaces: &Workspaces,
    workspace: usize,
    tab: &Option<(u32, String)>,
    window_active: bool,
    title: &str,
    subtitle: &str,
    body: &str,
) -> (r: NotificationPlan)
    requires
        workspace < workspaces.list@.len(),
    ensures
        ({
            let id = workspaces.views()[workspace as int].id;
            &&& r.workspace == workspace
            &&& r.message@ == notification_message(title@, combined(subtitle@, body@))
            &&& r.target@ == (TargetView {
                workspace_id: id,
                pane_id: match tab {
                    Some(tab) => Some(tab.0),
                    None => None,
                },
                tab_id: match tab {
                    Some(tab) => Some(tab.1@),
                    None => None,
                },
            })
            &&& r.focused_if_visible == (*tab is Some && window_active && workspace
                == workspaces.active_idx)
            &&& r.answer@ == JsonView::Object(notification_answer(id, title@, subtitle@, body@))
        }),
{
    let id = workspaces.list[workspace].id.as_str();
    assert(workspaces.views()[workspace as int].id == id@);
    let body_text = combine_body(subtitle, body);
    let message = workspace_notification_message(title, body_text.as_str());
    let (pane_id, tab_id) = match tab {
        Some(tab) => (Some(tab.0), Some(tab.1.clone())),
        None => (None, None),
    };
    let answer = Json::object().with("ok", Json::Bool(true)).with(
        "workspace_id",
        Json::text(id),
    ).with("workspace_ref", Json::Text(workspace_ref(id))).with("title", Json::text(title)).with(
        "subtitle",
        Json::text(subtitle),
    ).with("body", Json::text(body));
    NotificationPlan {
        workspace,
        message,
        target: DesktopNotificationTarget { workspace_id: id.to_owned(), pane_id, tab_id },
        focused_if_visible: tab.is_some() && window_active && workspace == workspaces.active_idx,
        answer,
    }
}

/// The answer to a command that comes before the window is there.
pub fn not_initialized() -> (r: BridgeError)
    ensures
        r.is(ErrorKind::Internal, "control bridge not initialized"@),
{
    BridgeError::internal("control bridge not initialized")
}

/// A command that only asks changes nothing: the window is as it was, and the
/// answer comes at once.
pub proof fn lemma_questions_are_answered_at_once(
    world: World,
    command: ControlCommand,
    home: Option<Seq<char>>,
    version: Seq<char>,
)
    requires
        command is Identify || command is CurrentWorkspace || command is ListWorkspaces || command
            is ListPanes || command is ListPaneSurfaces || command is ListSurfaces || command
            is SurfaceHealth,
    ensures
        ({
            let step = control_step(world, command, home, version);
            step is Reply || step is Failure
        }),
{
}

/// A command about a workspace that does not exist is answered with that, and
/// nothing is done.
pub proof fn lemma_unknown_workspace_is_refused(
    world: World,
    command: ControlCommand,
    home: Option<Seq<char>>,
    version: Seq<char>,
)
    requires
        command_target(command) matches Some(target) && target_index(world.workspaces, target)
            is None,
    ensures
        control_step(world, command, home, version) == not_found("workspace not found"@),
{
}

/// A command that names a surface is carried out with exactly that name, whatever has
/// the focus, and on what it was given. Only text that is sent without a name goes to
/// the surface that has the focus in that workspace.
pub proof fn lemma_named_surface_is_used(
    world: World,
    target: WorkspaceTarget,
    index: int,
    surface: String,
    hint: Option<String>,
    given: String,
    subtitle: String,
    body: String,
    home: Option<Seq<char>>,
    version: Seq<char>,
)
    requires
        target_index(world.workspaces, target) == Some(index),
        hint == Some(surface),
    ensures
        control_step(
            world,
            ControlCommand::SendText { target, surface_hint: hint, text: given },
            home,
            version,
        ) == (StepView::UseTerminal {
            workspace: index,
            hint: Some(surface@),
            wanted: UseView::SendText(given@),
        }),
        control_step(
            world,
            ControlCommand::SendKey { target, surface_hint: hint, key: given },
            home,
            version,
        ) == (StepView::UseTerminal {
            workspace: index,
            hint: Some(surface@),
            wanted: UseView::SendKey(given@),
        }),
        control_step(
            world,
            ControlCommand::ReadSurfaceText { target, surface_hint: hint },
            home,
            version,
        ) == (StepView::UseTerminal {
            workspace: index,
            hint: Some(surface@),
            wanted: UseView::ReadText,
        }),
        control_step(
            world,
            ControlCommand::CreateNotification {
                target,
                surface_hint: hint,
                title: given,
                subtitle,
                body,
            },
            home,
            version,
        ) == (StepView::Notify {
            workspace: index,
            surface_hint: Some(surface@),
            title: given@,
            subtitle: subtitle@,
            body: body@,
        }),
{
}

/// Without a name, text goes to the focused surface if its workspace is the one that is
/// meant, and keys, readings and notifications name no surface.
pub proof fn lemma_unnamed_surface(
    world: World,
    target: WorkspaceTarget,
    index: int,
    given: String,
    home: Option<Seq<char>>,
    version: Seq<char>,
)
    requires
        world.wf(),
        0 <= index < world.workspaces.list@.len(),
        target_index(world.workspaces, target) == Some(index),
    ensures
        ({
            let step = control_step(
                world,
                ControlCommand::SendText { target, surface_hint: None, text: given },
                home,
                version,
            );
            &&& step matches StepView::UseTerminal { workspace, hint, wanted }
            &&& workspace == index
            &&& wanted == UseView::SendText(given@)
            &&& index == world.workspaces.active_idx ==> (world.focused matches Some(s)
                ==> hint == Some(s.surface_id@))
            &&& world.focused is None ==> hint is None
            &&& world.workspaces.views()[index].id != world.workspaces.active()->0.id ==> hint
                is None
        }),
        control_step(
            world,
            ControlCommand::SendKey { target, surface_hint: None, key: given },
            home,
            version,
        ) == (StepView::UseTerminal {
            workspace: index,
            hint: None,
            wanted: UseView::SendKey(given@),
        }),
        control_step(
            world,
            ControlCommand::ReadSurfaceText { target, surface_hint: None },
            home,
            version,
        ) == (StepView::UseTerminal { workspace: index, hint: None, wanted: UseView::ReadText }),
{
    assert(world.workspaces.views()[index].id == world.workspaces.list@[index].id@);
}

/// Commands that change a workspace change the one that they are about: it is shown, it
/// gets exactly the title that was given, it is closed unless it is the last one.
pub proof fn lemma_commands_reach_their_workspace(
    world: World,
    target: WorkspaceTarget,
    index: int,
    title: String,
    home: Option<Seq<char>>,
    version: Seq<char>,
)
    requires
        world.wf(),
        0 <= index < world.workspaces.list@.len(),
        target_index(world.workspaces, target) == Some(index),
    ensures
        control_step(world, ControlCommand::SelectWorkspace { target }, home, version)
            == StepView::SelectWorkspace(index),
        control_step(world, ControlCommand::RenameWorkspace { target, title }, home, version) == (
        StepView::RenameWorkspace { index, title: title@ }),
        world.workspaces.list@.len() >= 2 ==> (control_step(
            world,
            ControlCommand::CloseWorkspace { target },
            home,
            version,
        ) matches StepView::CloseWorkspace { workspace_id, .. } && workspace_id
            == world.workspaces.list@[index].id@),
        world.workspaces.list@.len() < 2 ==> (control_step(
            world,
            ControlCommand::CloseWorkspace { target },
            home,
            version,
        ) matches StepView::Failure(kind, _) && kind == ErrorKind::Conflict),
{
    assert(world.workspaces.views()[index].id == world.workspaces.list@[index].id@);
}

/// A new workspace opens in the folder that was given, under the title that was given,
/// with the command that was given. Without a folder it opens in the home directory,
/// and without a title it is named after its folder.
pub proof fn lemma_new_workspace_as_asked(
    world: World,
    name: Option<String>,
    cwd: Option<String>,
    command: Option<String>,
    home: Option<Seq<char>>,
    version: Seq<char>,
)
    ensures
        ({
            let step = control_step(
                world,
                ControlCommand::CreateWorkspace { name, cwd, command },
                home,
                version,
            );
            &&& step matches StepView::CreateWorkspace { title, folder_path, command: run }
            &&& cwd matches Some(dir) ==> folder_path == dir@
            &&& cwd is None && (home matches Some(dir)) ==> folder_path == home->0
            &&& cwd is None && home is None ==> folder_path.len() == 0
            &&& name matches Some(given) ==> title == given@
            &&& name is None && file_name(folder_path) is Some ==> file_name(folder_path) == Some(
                title,
            )
            &&& name is None && file_name(folder_path) is None ==> title == "workspace"@
            &&& command matches Some(given) ==> run == Some(given@)
            &&& command is None ==> run is None
        }),
{
}

/// A new pane is split off the pane that was asked for, on the side that was asked for,
/// with the command that was asked for, in the workspace that was asked for.
pub proof fn lemma_new_pane_as_asked(
    world: World,
    request: PaneCreateRequest,
    index: int,
    pane: u32,
    home: Option<Seq<char>>,
    version: Seq<char>,
)
    requires
        world.wf(),
        crate::window::workspaces::distinct_ids(world.workspaces.views()),
        request.pane_type == PaneCreateType::Terminal,
        target_index(world.workspaces, request.target) == Some(index),
        0 <= index < world.workspaces.list@.len(),
        request.source_surface_id is None,
        request.source_pane_id matches Some(raw) && pane_named(raw@) == Some(pane),
        pane_numbers(world.contents@[index].panes@).contains(pane),
    ensures
        control_step(world, ControlCommand::CreatePane { request }, home, version) == (
        StepView::SplitPane {
            workspace_id: world.workspaces.list@[index].id@,
            workspace_name: world.workspaces.list@[index].name@,
            pane_id: pane,
            placement: placement(request.direction),
            command: match request.command {
                Some(command) => Some(command@),
                None => None,
            },
        }),
{
    let views = world.workspaces.views();
    let id = views[index].id;
    assert(views[index] == world.workspaces.list@[index]@);
    assert forall|j: int| 0 <= j < index implies !has_id(id)(#[trigger] views[j]) by {}
    crate::window::workspaces::lemma_is_first(views, has_id(id), index);
    assert(pane_numbers(world.contents@[index].panes@).len() > 0);
}

/// A pane that is split off a surface is split off the pane that holds the surface; a
/// pane or a focus does not count then. Without either it is the focused pane of the
/// workspace that is shown, else the first one.
pub proof fn lemma_pane_split_off(
    world: World,
    index: int,
    surface: Seq<char>,
    at: int,
    pane: Option<u32>,
)
    requires
        world.wf(),
        0 <= index < world.workspaces.list@.len(),
        ({
            let surfaces = world.contents@[index].surfaces@;
            let panes = pane_numbers(world.contents@[index].panes@);
            &&& 0 <= at < surfaces.len()
            &&& crate::window::handles::named(surface, "surface:"@) == surfaces[at].surface_id@
            &&& forall|i: int|
                0 <= i < at ==> (#[trigger] surfaces[i]).surface_id@ != surfaces[at].surface_id@
            &&& panes.contains(surfaces[at].pane_id)
        }),
    ensures
        split_source(world, index, Some(surface), pane) == Ok::<u32, PaneCreateFailure>(
            world.contents@[index].surfaces@[at].pane_id,
        ),
        index == world.workspaces.active_idx && (world.focused matches Some(s) && pane_numbers(
            world.contents@[index].panes@,
        ).contains(s.pane_id)) ==> split_source(world, index, None, None) == Ok::<
            u32,
            PaneCreateFailure,
        >(world.focused->0.pane_id),
        index != world.workspaces.active_idx || world.focused is None ==> split_source(
            world,
            index,
            None,
            None,
        ) == Ok::<u32, PaneCreateFailure>(world.contents@[index].panes@[0].pane_id),
{
    let surfaces = world.contents@[index].surfaces@;
    lemma_pane_holding_found(surfaces, at);
    assert(world.workspaces.views()[index].id == world.workspaces.list@[index].id@);
}

proof fn lemma_pane_holding_found(surfaces: Seq<SurfaceSummary>, at: int)
    requires
        0 <= at < surfaces.len(),
        forall|i: int|
            0 <= i < at ==> (#[trigger] surfaces[i]).surface_id@ != surfaces[at].surface_id@,
    ensures
        pane_holding(surfaces, surfaces[at].surface_id@) == Some(surfaces[at].pane_id),
    decreases surfaces.len(),
{
    let front = surfaces.drop_last();
    if at < surfaces.len() - 1 {
        assert(front[at] == surfaces[at]);
        assert forall|i: int| 0 <= i < at implies (#[trigger] front[i]).surface_id@
            != front[at].surface_id@ by {
            assert(front[i] == surfaces[i]);
        }
        lemma_pane_holding_found(front, at);
    } else {
        lemma_none_holding(front, surfaces[at].surface_id@);
    }
}

proof fn lemma_none_holding(surfaces: Seq<SurfaceSummary>, id: Seq<char>)
    requires
        forall|i: int| 0 <= i < surfaces.len() ==> (#[trigger] surfaces[i]).surface_id@ != id,
    ensures
        pane_holding(surfaces, id) is None,
    decreases surfaces.len(),
{
    if surfaces.len() > 0 {
        let front = surfaces.drop_last();
        assert forall|i: int| 0 <= i < front.len() implies (#[trigger] front[i]).surface_id@
            != id by {
            assert(front[i] == surfaces[i]);
        }
        lemma_none_holding(front, id);
    }
}

/// The surfaces of a pane are asked for by its handle or its number. A text that is
/// neither is refused, and so is a pane that shows no surface; any other question is
/// answered with a row for each surface of that pane, or of all panes where none is
/// named, in their order.
pub proof fn lemma_pane_surfaces_are_listed(
    world: World,
    index: int,
    pane_id: Option<Seq<char>>,
    pane: u32,
)
    ensures
        ({
            let surfaces = world.contents@[index].surfaces@;
            let step = pane_surfaces_step(world, index, pane_id);
            &&& pane_asked(pane_handle(pane)) == Some(pane)
            &&& pane_asked(decimal_text(pane as nat)) == Some(pane)
            &&& (step matches StepView::Failure(ErrorKind::InvalidParams, _)) <==> (pane_id
                matches Some(raw) && pane_asked(raw) is None)
            &&& (step matches StepView::Failure(ErrorKind::NotFound, _)) <==> (pane_id matches Some(
                raw,
            ) && (pane_asked(raw) matches Some(asked) && surfaces_of(
                surfaces,
                Some(asked),
            ).len() == 0))
            &&& step is Failure || step is Reply
            &&& step matches StepView::Reply(answer) ==> {
                let listed = match pane_id {
                    Some(raw) => surfaces_of(surfaces, pane_asked(raw)),
                    None => surfaces_of(surfaces, None),
                };
                &&& answer.field("surfaces"@) matches Some(JsonView::Array(rows))
                &&& rows.len() == listed.len()
                &&& forall|i: int|
                    0 <= i < rows.len() ==> (#[trigger] rows[i]) == JsonView::Object(
                        surface_fields(
                            i as usize,
                            focused_surface(world.focus_at(index)),
                            listed[i],
                        ),
                    )
            }
        }),
{
    lemma_handles_lead_back(Seq::empty(), pane);
    lemma_number_written_and_read(pane);
    reveal_strlit("pane:");
    let digits = decimal_text(pane as nat);
    lemma_decimal_digits(pane as nat);
    assert(digit_value(digits[0]) is Some);
    if let Some(named_pane) = pane_named(digits) {
        lemma_plain_digits(digits);
    }
}

proof fn lemma_plain_digits(digits: Seq<char>)
    requires
        digits.len() > 0,
        all_digits(digits),
    ensures
        crate::window::handles::named(digits, "pane:"@) == digits,
{
    reveal_strlit("pane:");
    assert(digit_value(digits[0]) is Some);
    assert(digit_value(digits[digits.len() - 1]) is Some);
    assert(trimmed_start(digits) == digits);
    assert(trimmed_end(digits) == digits);
    if "pane:"@.is_prefix_of(digits) {
        assert(digits[0] == "pane:"@[0]);
    }
}

/// The focus is told only in answers about the workspace that has it: the panes and
/// surfaces of any other are listed without one.
pub proof fn lemma_focus_told_where_it_is(world: World, index: int)
    requires
        world.wf(),
        distinct_ids(world.workspaces.views()),
        0 <= index < world.workspaces.list@.len(),
    ensures
        world.focus_at(index) is Some ==> index == world.workspaces.active_idx,
        index == world.workspaces.active_idx ==> world.focus_at(index) == world.focus(),
        panes_answer(world, index) matches StepView::Reply(answer) && (answer.field("panes"@)
            matches Some(JsonView::Array(rows)) && rows == pane_rows(
            world.contents@[index].panes@,
            focused_pane(world.focus_at(index)),
        )),
{
    let views = world.workspaces.views();
    let active = world.workspaces.active_idx as int;
    assert(views[index].id == world.workspaces.list@[index].id@);
    assert(views[active].id == world.workspaces.list@[active].id@);
}

/// The last workspace cannot be closed. Any other is closed by its identifier, and
/// the answer describes it as it was.
pub proof fn lemma_close_by_identifier(world: World, target: WorkspaceTarget)
    ensures
        ({
            let step = close_step(world, target);
            let views = world.workspaces.views();
            &&& (step matches StepView::Failure(ErrorKind::Conflict, _))
                <==> world.workspaces.list@.len() <= 1
            &&& step is CloseWorkspace <==> world.workspaces.list@.len() > 1 && target_index(
                world.workspaces,
                target,
            ) is Some
            &&& step matches StepView::CloseWorkspace { workspace_id, answer } ==> {
                &&& workspace_id == views[target_index(world.workspaces, target)->0].id
                &&& answer.field("workspace_id"@) == Some(text(workspace_id))
            }
        }),
{
    reveal_strlit("workspace_id");
    reveal_strlit("workspace_ref");
    reveal_strlit("workspace");
    reveal_strlit("title");
    reveal_strlit("name");
    assert("workspace_id"@.len() == 12 && "workspace_ref"@.len() == 13);
    assert("workspace"@.len() == 9 && "title"@.len() == 5 && "name"@.len() == 4);
}

/// A question about health is refused only where it names a surface that is not
/// there; it is answered with a row for each surface that it is about.
pub proof fn lemma_health_is_listed(world: World, index: int, id: Seq<char>)
    ensures
        ({
            let surfaces = world.contents@[index].surfaces@;
            let all = health_step(world, index, None);
            let one = health_step(world, index, Some(id));
            let wanted = Some(crate::window::handles::named(id, "surface:"@));
            &&& all matches StepView::Reply(answer) && (answer.field("surfaces"@) matches Some(
                JsonView::Array(rows),
            ) && rows.len() == surfaces_named(surfaces, None).len())
            &&& one is Reply <==> surfaces_named(surfaces, wanted).len() > 0
            &&& one is Failure <==> surfaces_named(surfaces, wanted).len() == 0
            &&& one matches StepView::Reply(answer) ==> (answer.field("surfaces"@) matches Some(
                JsonView::Array(rows),
            ) && rows == health_rows(
                surfaces_named(surfaces, wanted),
                focused_surface(world.focus_at(index)),
            ))
        }),
{
}

/// Whoever asks who answers is told the version and the focus, which is nothing where
/// no workspace or no surface has it; and is called by the name that was given, or by
/// the focus where none was.
pub proof fn lemma_identity_is_told(world: World, caller: Option<JsonView>, version: Seq<char>)
    ensures
        identity(world, caller, version) matches StepView::Reply(answer) && {
            &&& answer.field("version"@) == Some(text(version))
            &&& caller is Some ==> answer.field("caller"@) == caller
            &&& caller is None ==> answer.field("caller"@) == answer.field("focused"@)
            &&& answer.field("focused"@) == Some(JsonView::Null) <==> world.workspaces.active()
                is None || world.focus() is None
            &&& (world.workspaces.active() matches Some(w) && (world.focus() matches Some(s)
                && answer.field("focused"@) == Some(
                JsonView::Object(focused_fields(w.id, w.name, s)),
            ))) || answer.field("focused"@) == Some(JsonView::Null)
        },
{
    reveal_strlit("name");
    reveal_strlit("protocol");
    reveal_strlit("version");
    reveal_strlit("focused");
    reveal_strlit("caller");
    assert("name"@.len() == 4 && "protocol"@.len() == 8 && "caller"@.len() == 6);
    assert("version"@[0] == 'v' && "focused"@[0] == 'f');
}

/// What is said of a surface that was used, and of a notification that was made, is
/// what it was used on and what was made.
pub proof fn lemma_use_is_reported(
    workspace: Seq<char>,
    surface: Seq<char>,
    title: Seq<char>,
    subtitle: Seq<char>,
    body: Seq<char>,
)
    ensures
        ({
            let used = JsonView::Object(surface_answer(workspace, surface));
            let noted = JsonView::Object(notification_answer(workspace, title, subtitle, body));
            &&& used.field("workspace_id"@) == Some(text(workspace))
            &&& used.field("workspace_ref"@) == Some(text(workspace_handle(workspace)))
            &&& used.field("surface_id"@) == Some(text(surface))
            &&& used.field("surface_ref"@) == Some(text(surface_handle(surface)))
            &&& noted.field("ok"@) == Some(JsonView::Bool(true))
            &&& noted.field("workspace_id"@) == Some(text(workspace))
            &&& noted.field("workspace_ref"@) == Some(text(workspace_handle(workspace)))
            &&& noted.field("title"@) == Some(text(title))
            &&& noted.field("subtitle"@) == Some(text(subtitle))
            &&& noted.field("body"@) == Some(text(body))
        }),
{
    reveal_strlit("workspace_id");
    reveal_strlit("workspace_ref");
    reveal_strlit("surface_id");
    reveal_strlit("surface_ref");
    reveal_strlit("ok");
    reveal_strlit("title");
    reveal_strlit("subtitle");
    reveal_strlit("body");
    assert("workspace_id"@.len() == 12 && "workspace_ref"@.len() == 13);
    assert("surface_id"@.len() == 10 && "surface_ref"@.len() == 11 && "ok"@.len() == 2);
    assert("title"@.len() == 5 && "subtitle"@.len() == 8 && "body"@.len() == 4);
}

} // verus!
