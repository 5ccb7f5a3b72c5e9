//! What a command is about: a workspace, a pane to split, a surface.
use vstd::prelude::*;
use vstd::string::*;

use crate::split_tree::{split_of, Orientation, SplitNode};
use crate::text::{is_white_space, same};
use crate::window::handles::{
    lemma_handles_lead_back, named, normalize_surface_handle, normalize_workspace_handle,
    workspace_handle,
};
use crate::window::workspaces::{
    as_int, distinct_ids, first_where, has_id, has_name, index_of_id, index_of_name,
    lemma_first_where, lemma_is_first, Workspaces,
};

verus! {

/// What went wrong with a command.
#[derive(Clone, Copy, Debug, PartialEq, Eq, Structural)]
pub enum ErrorKind {
    /// The command does not make sense.
    InvalidParams,
    /// What it is about does not exist.
    NotFound,
    /// It cannot be done as things are.
    Conflict,
    /// The window could not do it.
    Internal,
}

/// The answer to a command that failed.
#[derive(Debug, PartialEq)]
pub struct BridgeError {
    pub kind: ErrorKind,
    pub message: String,
}

impl BridgeError {
    pub open spec fn is(self, kind: ErrorKind, message: Seq<char>) -> bool {
        self.kind == kind && self.message@ == message
    }

    pub fn not_found(message: &str) -> (r: Self)
        ensures
            r.is(ErrorKind::NotFound, message@),
    {
        BridgeError { kind: ErrorKind::NotFound, message: message.to_owned() }
    }

    pub fn conflict(message: &str) -> (r: Self)
        ensures
            r.is(ErrorKind::Conflict, message@),
    {
        BridgeError { kind: ErrorKind::Conflict, message: message.to_owned() }
    }

    pub fn invalid_params(message: &str) -> (r: Self)
        ensures
            r.is(ErrorKind::InvalidParams, message@),
    {
        BridgeError { kind: ErrorKind::InvalidParams, message: message.to_owned() }
    }

    pub fn internal(message: &str) -> (r: Self)
        ensures
            r.is(ErrorKind::Internal, message@),
    {
        BridgeError { kind: ErrorKind::Internal, message: message.to_owned() }
    }
}

/// Which workspace a command is about.
#[derive(Debug, PartialEq)]
pub enum WorkspaceTarget {
    Active,
    Handle(String),
    Name(String),
    Index(usize),
}

/// The position of the workspace that a command is about.
pub open spec fn target_index(workspaces: Workspaces, target: WorkspaceTarget) -> Option<int> {
    match target {
        WorkspaceTarget::Active => if workspaces.list@.len() > 0 {
            Some(workspaces.active_idx as int)
        } else {
            None
        },
        WorkspaceTarget::Handle(handle) => first_where(
            workspaces.views(),
            has_id(named(handle@, "workspace:"@)),
        ),
        WorkspaceTarget::Name(name) => first_where(workspaces.views(), has_name(name@)),
        WorkspaceTarget::Index(index) => if index < workspaces.list@.len() {
            Some(index as int)
        } else {
            None
        },
    }
}

pub fn workspace_index_for_target(workspaces: &Workspaces, target: &WorkspaceTarget) -> (r: Option<
    usize,
>)
    ensures
        as_int(r) == target_index(*workspaces, *target),
        target !is Active ==> (r matches Some(i) ==> i < workspaces.list@.len()),
{
    match target {
        WorkspaceTarget::Active => if workspaces.list.len() > 0 {
            Some(workspaces.active_idx)
        } else {
            None
        },
        WorkspaceTarget::Handle(handle) => index_of_id(
            &workspaces.list,
            normalize_workspace_handle(handle.as_str()),
        ),
        WorkspaceTarget::Name(name) => index_of_name(&workspaces.list, name.as_str()),
        WorkspaceTarget::Index(index) => if *index < workspaces.list.len() {
            Some(*index)
        } else {
            None
        },
    }
}

/// On which side of a pane a new one is opened.
#[derive(Clone, Copy, Debug, PartialEq, Eq, Structural)]
pub enum PaneCreateDirection {
    Left,
    Right,
    Up,
    Down,
}

pub open spec fn direction_named(raw: Seq<char>) -> Option<PaneCreateDirection> {
    if raw == "left"@ {
        Some(PaneCreateDirection::Left)
    } else if raw == "right"@ {
        Some(PaneCreateDirection::Right)
    } else if raw == "up"@ {
        Some(PaneCreateDirection::Up)
    } else if raw == "down"@ {
        Some(PaneCreateDirection::Down)
    } else {
        None
    }
}

impl PaneCreateDirection {
    pub fn from_str(raw: &str) -> (r: Option<Self>)
        ensures
            r == direction_named(raw@),
    {
        if same(raw, "left") {
            Some(PaneCreateDirection::Left)
        } else if same(raw, "right") {
            Some(PaneCreateDirection::Right)
        } else if same(raw, "up") {
            Some(PaneCreateDirection::Up)
        } else if same(raw, "down") {
            Some(PaneCreateDirection::Down)
        } else {
            None
        }
    }
}

/// How a pane is split for a new one.
#[derive(Clone, Copy, Debug, PartialEq, Eq, Structural)]
pub struct PaneCreateSplitPlacement {
    pub orientation: Orientation,
    pub new_pane_first: bool,
}

pub open spec fn placement(direction: PaneCreateDirection) -> PaneCreateSplitPlacement {
    PaneCreateSplitPlacement {
        orientation: if direction == PaneCreateDirection::Left || direction
            == PaneCreateDirection::Right {
            Orientation::Horizontal
        } else {
            Orientation::Vertical
        },
        new_pane_first: direction == PaneCreateDirection::Left || direction
            == PaneCreateDirection::Up,
    }
}

pub fn pane_create_split_placement(direction: PaneCreateDirection) -> (r: PaneCreateSplitPlacement)
    ensures
        r == placement(direction),
{
    match direction {
        PaneCreateDirection::Left => PaneCreateSplitPlacement {
            orientation: Orientation::Horizontal,
            new_pane_first: true,
        },
        PaneCreateDirection::Right => PaneCreateSplitPlacement {
            orientation: Orientation::Horizontal,
            new_pane_first: false,
        },
        PaneCreateDirection::Up => PaneCreateSplitPlacement {
            orientation: Orientation::Vertical,
            new_pane_first: true,
        },
        PaneCreateDirection::Down => PaneCreateSplitPlacement {
            orientation: Orientation::Vertical,
            new_pane_first: false,
        },
    }
}

/// Why there is no pane to split.
#[derive(Clone, Debug, PartialEq, Eq)]
pub enum PaneCreateTargetError {
    WorkspaceNotFound,
    InvalidSurfaceId(String),
    InvalidPaneId(u32),
    NoPanes,
}

/// The pane of the first surface with an identifier.
pub open spec fn pane_of_surface(surfaces: Seq<(String, u32)>, id: Seq<char>) -> Option<u32>
    decreases surfaces.len(),
{
    if surfaces.len() == 0 {
        None
    } else {
        match pane_of_surface(surfaces.drop_last(), id) {
            Some(pane) => Some(pane),
            None => if surfaces.last().0@ == id {
                Some(surfaces.last().1)
            } else {
                None
            },
        }
    }
}

proof fn lemma_pane_of_surface_found(surfaces: Seq<(String, u32)>, id: Seq<char>, n: int)
    requires
        0 <= n < surfaces.len(),
        surfaces[n].0@ == id,
        pane_of_surface(surfaces.take(n), id) is None,
    ensures
        pane_of_surface(surfaces, id) == Some(surfaces[n].1),
    decreases surfaces.len() - n,
{
    lemma_pane_of_surface_grows(surfaces, id, n + 1);
    assert(surfaces.take(n + 1).drop_last() =~= surfaces.take(n));
}

proof fn lemma_pane_of_surface_grows(surfaces: Seq<(String, u32)>, id: Seq<char>, n: int)
    requires
        0 <= n <= surfaces.len(),
        pane_of_surface(surfaces.take(n), id) is Some,
    ensures
        pane_of_surface(surfaces, id) == pane_of_surface(surfaces.take(n), id),
    decreases surfaces.len() - n,
{
    if n < surfaces.len() {
        assert(surfaces.take(n + 1).drop_last() =~= surfaces.take(n));
        lemma_pane_of_surface_grows(surfaces, id, n + 1);
    } else {
        assert(surfaces.take(n) =~= surfaces);
    }
}

#[verifier::loop_isolation(false)]
fn find_pane_of_surface(surfaces: &Vec<(String, u32)>, id: &str) -> (r: Option<u32>)
    ensures
        r == pane_of_surface(surfaces@, id@),
{
    let mut i: usize = 0;
    assert(surfaces@.take(0).len() == 0);
    while i < surfaces.len()
        invariant
            i <= surfaces@.len(),
            pane_of_surface(surfaces@.take(i as int), id@) is None,
        decreases surfaces@.len() - i,
    {
        let entry = &surfaces[i];
        if same(entry.0.as_str(), id) {
            proof {
                lemma_pane_of_surface_found(surfaces@, id@, i as int);
            }
            return Some(entry.1);
        }
        assert(surfaces@.take(i + 1).drop_last() =~= surfaces@.take(i as int));
        i += 1;
    }
    assert(surfaces@.take(i as int) =~= surfaces@);
    None
}

/// Whether a list holds a number.
pub fn lists_pane(panes: &Vec<u32>, pane: u32) -> (r: bool)
    ensures
        r == panes@.contains(pane),
{
    let mut i: usize = 0;
    while i < panes.len()
        invariant
            i <= panes@.len(),
            forall|j: int| 0 <= j < i ==> panes@[j] != pane,
        decreases panes@.len() - i,
    {
        if panes[i] == pane {
            assert(panes@[i as int] == pane);
            return true;
        }
        i += 1;
    }
    false
}

/// The pane to split: that of the surface that is asked for, else the pane that
/// is asked for, else the one with the focus in the workspace that is shown, else
/// the first.
pub open spec fn source_pane(
    surface: Option<Seq<char>>,
    pane: Option<u32>,
    focused: Option<u32>,
    active: bool,
    panes: Seq<u32>,
    surfaces: Seq<(String, u32)>,
) -> Option<u32> {
    if panes.len() == 0 {
        None
    } else if let Some(surface) = surface {
        pane_of_surface(surfaces, named(surface, "surface:"@))
    } else if let Some(pane) = pane {
        if panes.contains(pane) {
            Some(pane)
        } else {
            None
        }
    } else {
        match focused {
            Some(focused) if active && panes.contains(focused) => Some(focused),
            _ => Some(panes[0]),
        }
    }
}

pub fn resolve_pane_create_source_id(
    surface_id: Option<&str>,
    pane_id: Option<u32>,
    focused_pane_id: Option<u32>,
    target_workspace_is_active: bool,
    pane_ids: &Vec<u32>,
    surface_to_pane: &Vec<(String, u32)>,
) -> (r: Result<u32, PaneCreateTargetError>)
    ensures
        ({
            let source = source_pane(
                crate::text::optional_str(surface_id),
                pane_id,
                focused_pane_id,
                target_workspace_is_active,
                pane_ids@,
                surface_to_pane@,
            );
            match r {
                Ok(pane) => source == Some(pane),
                Err(error) => source is None && if pane_ids@.len() == 0 {
                    error is NoPanes
                } else if let Some(surface) = surface_id {
                    error matches PaneCreateTargetError::InvalidSurfaceId(id) && id@ == surface@
                } else {
                    error matches PaneCreateTargetError::InvalidPaneId(id) && Some(id) == pane_id
                },
            }
        }),
{
    if pane_ids.len() == 0 {
        return Err(PaneCreateTargetError::NoPanes);
    }
    if let Some(surface_id) = surface_id {
        let requested = normalize_surface_handle(surface_id);
        return match find_pane_of_surface(surface_to_pane, requested) {
            Some(pane) => Ok(pane),
            None => Err(PaneCreateTargetError::InvalidSurfaceId(surface_id.to_owned())),
        };
    }
    if let Some(pane_id) = pane_id {
        if lists_pane(pane_ids, pane_id) {
            return Ok(pane_id);
        }
        return Err(PaneCreateTargetError::InvalidPaneId(pane_id));
    }
    if target_workspace_is_active {
        if let Some(focused) = focused_pane_id {
            if lists_pane(pane_ids, focused) {
                return Ok(focused);
            }
        }
    }
    Ok(pane_ids[0])
}

/// What is answered where there is no pane to split.
pub fn pane_create_target_error(error: &PaneCreateTargetError) -> (r: BridgeError)
    ensures
        r.is(
            ErrorKind::NotFound,
            match error {
                PaneCreateTargetError::WorkspaceNotFound => "workspace not found"@,
                PaneCreateTargetError::InvalidSurfaceId(_) => "surface not found"@,
                PaneCreateTargetError::InvalidPaneId(_) => "pane not found"@,
                PaneCreateTargetError::NoPanes => "pane not found"@,
            },
        ),
{
    match error {
        PaneCreateTargetError::WorkspaceNotFound => BridgeError::not_found("workspace not found"),
        PaneCreateTargetError::InvalidSurfaceId(_) => BridgeError::not_found("surface not found"),
        PaneCreateTargetError::InvalidPaneId(_) => BridgeError::not_found("pane not found"),
        PaneCreateTargetError::NoPanes => BridgeError::not_found("pane not found"),
    }
}

/// A target leads to the workspace that it names: the one that is shown, the one at a
/// position, the one with the identifier, bare or in a handle, and the first one with
/// the name. Nothing else is found.
pub proof fn lemma_target_is_named(
    workspaces: Workspaces,
    at: int,
    handle: String,
    name: String,
    index: usize,
)
    requires
        workspaces.wf(),
        distinct_ids(workspaces.views()),
        0 <= at < workspaces.list@.len(),
        handle@ == workspace_handle(workspaces.views()[at].id) || handle@
            == workspaces.views()[at].id && named(handle@, "workspace:"@) == handle@,
        workspaces.views()[at].id.len() > 0,
        !is_white_space(workspaces.views()[at].id.last()),
    ensures
        target_index(workspaces, WorkspaceTarget::Handle(handle)) == Some(at),
        target_index(workspaces, WorkspaceTarget::Active) == Some(workspaces.active_idx as int),
        index < workspaces.list@.len() ==> target_index(workspaces, WorkspaceTarget::Index(index))
            == Some(index as int),
        index >= workspaces.list@.len() ==> target_index(
            workspaces,
            WorkspaceTarget::Index(index),
        ) is None,
        match target_index(workspaces, WorkspaceTarget::Name(name)) {
            Some(i) => 0 <= i < workspaces.list@.len() && workspaces.views()[i].name == name@
                && forall|j: int|
                0 <= j < i ==> (#[trigger] workspaces.views()[j]).name != name@,
            None => forall|j: int|
                0 <= j < workspaces.list@.len() ==> (#[trigger] workspaces.views()[j]).name
                    != name@,
        },
{
    let views = workspaces.views();
    let id = views[at].id;
    lemma_handles_lead_back(id, 0);
    assert forall|j: int| 0 <= j < at implies !has_id(id)(#[trigger] views[j]) by {}
    lemma_is_first(views, has_id(id), at);
    lemma_first_where(views, has_name(name@));
    match first_where(views, has_name(name@)) {
        Some(i) => {
            assert forall|j: int| 0 <= j < i implies (#[trigger] views[j]).name != name@ by {
                assert(!has_name(name@)(views[j]));
            }
        },
        None => {
            assert forall|j: int| 0 <= j < views.len() implies (#[trigger] views[j]).name
                != name@ by {
                assert(!has_name(name@)(views[j]));
            }
        },
    }
}

/// On which side of the old pane the new one lies after a split.
pub open spec fn new_pane_side(split: SplitNode, new_pane: u64) -> Option<PaneCreateDirection> {
    match split {
        SplitNode::Split { orientation: Orientation::Horizontal, left, .. } => if *left == (
        SplitNode::Leaf { pane: new_pane }) {
            Some(PaneCreateDirection::Left)
        } else {
            Some(PaneCreateDirection::Right)
        },
        SplitNode::Split { orientation: Orientation::Vertical, left, .. } => if *left == (
        SplitNode::Leaf { pane: new_pane }) {
            Some(PaneCreateDirection::Up)
        } else {
            Some(PaneCreateDirection::Down)
        },
        _ => None,
    }
}

/// A pane that is split for a new one in a direction has it on that side.
pub proof fn lemma_new_pane_on_asked_side(
    direction: PaneCreateDirection,
    target: u64,
    new_pane: u64,
    ratio: u64,
)
    requires
        target != new_pane,
    ensures
        new_pane_side(
            split_of(
                target,
                new_pane,
                placement(direction).orientation,
                placement(direction).new_pane_first,
                ratio,
            ),
            new_pane,
        ) == Some(direction),
{
}

/// The pane to split is the one that holds the surface that is asked for, whatever else
/// is asked for or has the focus. Without a surface it is the pane that is asked for, if
/// the workspace has it. Without either it is the focused pane where the workspace is
/// shown and has it, else the first pane.
pub proof fn lemma_source_pane(
    surface: Seq<char>,
    pane: Option<u32>,
    focused: Option<u32>,
    active: bool,
    panes: Seq<u32>,
    surfaces: Seq<(String, u32)>,
    at: int,
)
    requires
        panes.len() > 0,
        0 <= at < surfaces.len(),
        named(surface, "surface:"@) == surfaces[at].0@,
        forall|i: int| 0 <= i < at ==> (#[trigger] surfaces[i]).0@ != surfaces[at].0@,
    ensures
        source_pane(Some(surface), pane, focused, active, panes, surfaces) == Some(surfaces[at].1),
        pane matches Some(p) ==> (source_pane(None, pane, focused, active, panes, surfaces) is Some
            == panes.contains(p)),
        pane matches Some(p) && panes.contains(p) ==> source_pane(
            None,
            pane,
            focused,
            active,
            panes,
            surfaces,
        ) == pane,
        active && (focused matches Some(f) && panes.contains(f)) ==> source_pane(
            None,
            None,
            focused,
            active,
            panes,
            surfaces,
        ) == focused,
        !active || !(focused matches Some(f) && panes.contains(f)) ==> source_pane(
            None,
            None,
            focused,
            active,
            panes,
            surfaces,
        ) == Some(panes[0]),
{
    lemma_no_pane_before(surfaces, surfaces[at].0@, at);
    lemma_pane_of_surface_found(surfaces, surfaces[at].0@, at);
}

proof fn lemma_no_pane_before(surfaces: Seq<(String, u32)>, id: Seq<char>, n: int)
    requires
        0 <= n <= surfaces.len(),
        forall|i: int| 0 <= i < n ==> (#[trigger] surfaces[i]).0@ != id,
    ensures
        pane_of_surface(surfaces.take(n), id) is None,
    decreases n,
{
    if n > 0 {
        lemma_no_pane_before(surfaces, id, n - 1);
        assert(surfaces.take(n).drop_last() =~= surfaces.take(n - 1));
        assert(surfaces.take(n).last() == surfaces[n - 1]);
    }
}

/// A direction is asked for by its name, and by nothing else.
pub proof fn lemma_directions_by_name(raw: Seq<char>)
    ensures
        direction_named(raw) == Some(PaneCreateDirection::Left) <==> raw == "left"@,
        direction_named(raw) == Some(PaneCreateDirection::Right) <==> raw == "right"@,
        direction_named(raw) == Some(PaneCreateDirection::Up) <==> raw == "up"@,
        direction_named(raw) == Some(PaneCreateDirection::Down) <==> raw == "down"@,
{
    reveal_strlit("left");
    reveal_strlit("right");
    reveal_strlit("up");
    reveal_strlit("down");
    assert("left"@[0] == 'l' && "down"@[0] == 'd');
    assert("right"@.len() == 5 && "up"@.len() == 2 && "left"@.len() == 4 && "down"@.len() == 4);
}

} // verus!
