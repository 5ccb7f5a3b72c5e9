//! What the window tells about its workspaces, panes and surfaces.
use vstd::prelude::*;
use vstd::string::*;

use crate::json::{views, Json, JsonNumber, JsonView};
use crate::terminal::handle::TerminalHealth;
use crate::text::{
    decimal, decimal_text, is_white_space, lemma_number_written_and_read, number_in, optional_text,
    same,
};
use crate::window::handles::{
    lemma_handles_lead_back, named, normalize_surface_handle, pane_handle, pane_named, pane_ref,
    surface_handle, surface_ref, workspace_handle, workspace_ref,
};
use crate::window::targets::{BridgeError, ErrorKind};
use crate::window::workspaces::{Workspace, WorkspaceView, Workspaces};

verus! {

/// A tab of a pane.
#[derive(Debug, PartialEq)]
pub struct SurfaceSummary {
    pub surface_id: String,
    pub pane_id: u32,
    pub title: String,
    /// `terminal`, `browser` or the like.
    pub kind: String,
    /// It is the tab that its pane shows.
    pub selected: bool,
    pub cwd: Option<String>,
    pub uri: Option<String>,
    /// What its terminal says of its state, if it has one.
    pub health: Option<TerminalHealth>,
}

/// What a [`SurfaceSummary`] stands for.
pub ghost struct SurfaceView {
    pub surface_id: Seq<char>,
    pub pane_id: u32,
    pub title: Seq<char>,
    pub kind: Seq<char>,
    pub selected: bool,
    pub cwd: Option<Seq<char>>,
    pub uri: Option<Seq<char>>,
    pub health: Option<TerminalHealth>,
}

impl View for SurfaceSummary {
    type V = SurfaceView;

    open spec fn view(&self) -> SurfaceView {
        SurfaceView {
            surface_id: self.surface_id@,
            pane_id: self.pane_id,
            title: self.title@,
            kind: self.kind@,
            selected: self.selected,
            cwd: optional_text(self.cwd),
            uri: optional_text(self.uri),
            health: self.health,
        }
    }
}

/// A pane of a workspace.
#[derive(Debug, PartialEq)]
pub struct PaneSummary {
    pub pane_id: u32,
    pub surface_count: usize,
    pub active_surface_id: Option<String>,
}

/// What a [`PaneSummary`] stands for.
pub ghost struct PaneView {
    pub pane_id: u32,
    pub surface_count: usize,
    pub active_surface_id: Option<Seq<char>>,
}

impl View for PaneSummary {
    type V = PaneView;

    open spec fn view(&self) -> PaneView {
        PaneView {
            pane_id: self.pane_id,
            surface_count: self.surface_count,
            active_surface_id: optional_text(self.active_surface_id),
        }
    }
}

pub open spec fn text(s: Seq<char>) -> JsonView {
    JsonView::Text(s)
}

pub open spec fn number(n: u64) -> JsonView {
    JsonView::Number(JsonNumber::Unsigned(n))
}

/// A pane's number as text.
pub open spec fn pane_number(pane: u32) -> JsonView {
    JsonView::Text(decimal_text(pane as nat))
}

/// The fields with one more, if its text is there and not empty.
pub open spec fn with_text(
    fields: Map<Seq<char>, JsonView>,
    key: Seq<char>,
    value: Option<Seq<char>>,
) -> Map<Seq<char>, JsonView> {
    match value {
        Some(s) => if s.len() > 0 {
            fields.insert(key, JsonView::Text(s))
        } else {
            fields
        },
        None => fields,
    }
}

fn add_text(object: Json, key: &str, value: &Option<String>) -> (r: Json)
    requires
        object@ is Object,
    ensures
        r@ == JsonView::Object(with_text(object@->Object_0, key@, optional_text(*value))),
{
    match value {
        Some(s) => if s.as_str().is_empty() {
            object
        } else {
            object.with(key, Json::text(s.as_str()))
        },
        None => object,
    }
}

fn pane_text(pane: u32) -> (r: Json)
    ensures
        r@ == pane_number(pane),
{
    Json::Text(decimal(pane as u128))
}

/// A workspace in a list of them.
pub open spec fn workspace_fields(index: usize, selected: usize, w: WorkspaceView) -> Map<
    Seq<char>,
    JsonView,
> {
    map![
        "index"@ => number(index as u64),
        "id"@ => text(w.id),
        "ref"@ => text(workspace_handle(w.id)),
        "workspace_id"@ => text(w.id),
        "workspace_ref"@ => text(workspace_handle(w.id)),
        "title"@ => text(w.name),
        "name"@ => text(w.name),
        "selected"@ => JsonView::Bool(index == selected),
        "focused"@ => JsonView::Bool(index == selected),
        "cwd"@ => text(match w.cwd {
            Some(cwd) => cwd,
            None => Seq::empty(),
        }),
    ]
}

/// A workspace in a list of them. The directory is empty where it is unknown.
pub fn workspace_row(index: usize, selected_idx: usize, workspace: &Workspace) -> (r: Json)
    ensures
        r@ == JsonView::Object(workspace_fields(index, selected_idx, workspace@)),
{
    let cwd = match &workspace.cwd {
        Some(cwd) => Json::text(cwd.as_str()),
        None => Json::Text(String::new()),
    };
    Json::object().with("index", Json::unsigned(index as u64)).with(
        "id",
        Json::text(workspace.id.as_str()),
    ).with("ref", Json::Text(workspace_ref(workspace.id.as_str()))).with(
        "workspace_id",
        Json::text(workspace.id.as_str()),
    ).with("workspace_ref", Json::Text(workspace_ref(workspace.id.as_str()))).with(
        "title",
        Json::text(workspace.name.as_str()),
    ).with("name", Json::text(workspace.name.as_str())).with(
        "selected",
        Json::Bool(index == selected_idx),
    ).with("focused", Json::Bool(index == selected_idx)).with("cwd", cwd)
}

/// A workspace, alone.
pub open spec fn workspace_answer(index: usize, selected: usize, w: WorkspaceView) -> Map<
    Seq<char>,
    JsonView,
> {
    map![
        "workspace_id"@ => text(w.id),
        "workspace_ref"@ => text(workspace_handle(w.id)),
        "workspace"@ => JsonView::Object(workspace_fields(index, selected, w)),
        "title"@ => text(w.name),
        "name"@ => text(w.name),
    ]
}

/// The workspace at a position.
pub fn workspace_payload(workspaces: &Workspaces, index: usize) -> (r: Option<Json>)
    ensures
        r is Some == (index < workspaces.list@.len()),
        r matches Some(answer) ==> answer@ == JsonView::Object(
            workspace_answer(index, workspaces.active_idx, workspaces.list@[index as int]@),
        ),
{
    if index >= workspaces.list.len() {
        return None;
    }
    let workspace = &workspaces.list[index];
    Some(
        Json::object().with("workspace_id", Json::text(workspace.id.as_str())).with(
            "workspace_ref",
            Json::Text(workspace_ref(workspace.id.as_str())),
        ).with("workspace", workspace_row(index, workspaces.active_idx, workspace)).with(
            "title",
            Json::text(workspace.name.as_str()),
        ).with("name", Json::text(workspace.name.as_str())),
    )
}

/// All workspaces, each in a row.
pub open spec fn workspace_rows(workspaces: Workspaces) -> Seq<JsonView> {
    Seq::new(
        workspaces.list@.len(),
        |i: int|
            JsonView::Object(
                workspace_fields(i as usize, workspaces.active_idx, workspaces.list@[i]@),
            ),
    )
}

/// All workspaces, each in a row.
pub fn workspace_list_rows(workspaces: &Workspaces) -> (r: Vec<Json>)
    ensures
        views(r@) == workspace_rows(*workspaces),
{
    let mut rows: Vec<Json> = Vec::new();
    let mut i: usize = 0;
    while i < workspaces.list.len()
        invariant
            i <= workspaces.list@.len(),
            views(rows@) =~= workspace_rows(*workspaces).take(i as int),
        decreases workspaces.list@.len() - i,
    {
        let ghost before = rows@;
        let row = workspace_row(i, workspaces.active_idx, &workspaces.list[i]);
        rows.push(row);
        assert(views(rows@) =~= views(before).push(row@));
        i += 1;
    }
    assert(workspace_rows(*workspaces).take(i as int) =~= workspace_rows(*workspaces));
    rows
}

/// The surface that has the focus, and the workspace that it is in.
pub open spec fn focused_fields(id: Seq<char>, name: Seq<char>, s: SurfaceView) -> Map<
    Seq<char>,
    JsonView,
> {
    let base = map![
        "workspace_id"@ => text(id),
        "workspace_ref"@ => text(workspace_handle(id)),
        "title"@ => text(name),
        "name"@ => text(name),
        "pane_id"@ => pane_number(s.pane_id),
        "pane_ref"@ => text(pane_handle(s.pane_id)),
        "surface_id"@ => text(s.surface_id),
        "surface_ref"@ => text(surface_handle(s.surface_id)),
    ];
    let titled = with_text(base, "surface_title"@, Some(s.title)).insert(
        "surface_type"@,
        text(s.kind),
    );
    with_text(with_text(titled, "cwd"@, s.cwd), "uri"@, s.uri)
}

/// The surface that has the focus in the workspace that is shown; none where
/// there is no workspace or nothing has the focus.
pub fn focused_surface_payload(
    workspaces: &Workspaces,
    focused: Option<&SurfaceSummary>,
) -> (r: Option<Json>)
    ensures
        r is Some == (workspaces.active() is Some && focused is Some),
        r matches Some(answer) ==> answer@ == JsonView::Object(
            focused_fields(
                workspaces.active()->0.id,
                workspaces.active()->0.name,
                focused->0@,
            ),
        ),
{
    match (workspaces.active_workspace(), focused) {
        (Some(workspace), Some(surface)) => {
            let id = workspace.id.as_str();
            let name = workspace.name.as_str();
            let base = Json::object().with("workspace_id", Json::text(id)).with(
                "workspace_ref",
                Json::Text(workspace_ref(id)),
            ).with("title", Json::text(name)).with("name", Json::text(name)).with(
                "pane_id",
                pane_text(surface.pane_id),
            ).with("pane_ref", Json::Text(pane_ref(surface.pane_id))).with(
                "surface_id",
                Json::text(surface.surface_id.as_str()),
            ).with("surface_ref", Json::Text(surface_ref(surface.surface_id.as_str())));
            let base = if surface.title.as_str().is_empty() {
                base
            } else {
                base.with("surface_title", Json::text(surface.title.as_str()))
            };
            let base = base.with("surface_type", Json::text(surface.kind.as_str()));
            let base = add_text(base, "cwd", &surface.cwd);
            Some(add_text(base, "uri", &surface.uri))
        },
        _ => None,
    }
}

/// What has the focus in a workspace: pane and surface.
#[derive(Debug, PartialEq)]
pub struct FocusedIds {
    pub pane_id: Option<u32>,
    pub surface_id: Option<String>,
}

/// What has the focus in the workspace with an identifier: nothing, unless it is
/// the one that is shown. `focused` is the surface that has the focus in the
/// window.
pub open spec fn focus_in(
    workspaces: Workspaces,
    id: Seq<char>,
    focused: Option<SurfaceView>,
) -> Option<SurfaceView> {
    match workspaces.active() {
        Some(w) => if w.id == id {
            focused
        } else {
            None
        },
        None => None,
    }
}

pub open spec fn surface_view(surface: Option<&SurfaceSummary>) -> Option<SurfaceView> {
    match surface {
        Some(s) => Some(s@),
        None => None,
    }
}

pub open spec fn focused_pane(focus: Option<SurfaceView>) -> Option<u32> {
    match focus {
        Some(s) => Some(s.pane_id),
        None => None,
    }
}

pub open spec fn focused_surface(focus: Option<SurfaceView>) -> Option<Seq<char>> {
    match focus {
        Some(s) => Some(s.surface_id),
        None => None,
    }
}

pub fn focused_ids_for_workspace(
    workspaces: &Workspaces,
    workspace_id: &str,
    focused: Option<&SurfaceSummary>,
) -> (r: FocusedIds)
    ensures
        r.pane_id == focused_pane(focus_in(*workspaces, workspace_id@, surface_view(focused))),
        optional_text(r.surface_id) == focused_surface(
            focus_in(*workspaces, workspace_id@, surface_view(focused)),
        ),
{
    let is_active = match workspaces.active_workspace() {
        Some(workspace) => same(workspace.id.as_str(), workspace_id),
        None => false,
    };
    match focused {
        Some(surface) if is_active => FocusedIds {
            pane_id: Some(surface.pane_id),
            surface_id: Some(surface.surface_id.clone()),
        },
        _ => FocusedIds { pane_id: None, surface_id: None },
    }
}

/// A pane in a list of them.
pub open spec fn pane_fields(index: usize, focused: Option<u32>, p: PaneView) -> Map<
    Seq<char>,
    JsonView,
> {
    let base = map![
        "pane_id"@ => pane_number(p.pane_id),
        "pane_ref"@ => text(pane_handle(p.pane_id)),
        "index"@ => number(index as u64),
        "surface_count"@ => number(p.surface_count as u64),
        "focused"@ => JsonView::Bool(focused == Some(p.pane_id)),
        "selected"@ => JsonView::Bool(focused == Some(p.pane_id)),
    ];
    match p.active_surface_id {
        Some(id) => base.insert("surface_id"@, text(id)).insert(
            "surface_ref"@,
            text(surface_handle(id)),
        ),
        None => base,
    }
}

fn pane_row(index: usize, focused: Option<u32>, pane: &PaneSummary) -> (r: Json)
    ensures
        r@ == JsonView::Object(pane_fields(index, focused, pane@)),
{
    let is_focused = match focused {
        Some(id) => id == pane.pane_id,
        None => false,
    };
    let base = Json::object().with("pane_id", pane_text(pane.pane_id)).with(
        "pane_ref",
        Json::Text(pane_ref(pane.pane_id)),
    ).with("index", Json::unsigned(index as u64)).with(
        "surface_count",
        Json::unsigned(pane.surface_count as u64),
    ).with("focused", Json::Bool(is_focused)).with("selected", Json::Bool(is_focused));
    match &pane.active_surface_id {
        Some(id) => base.with("surface_id", Json::text(id.as_str())).with(
            "surface_ref",
            Json::Text(surface_ref(id.as_str())),
        ),
        None => base,
    }
}

pub open spec fn pane_rows(panes: Seq<PaneSummary>, focused: Option<u32>) -> Seq<JsonView> {
    Seq::new(
        panes.len(),
        |i: int| JsonView::Object(pane_fields(i as usize, focused, panes[i]@)),
    )
}

/// The panes of a workspace, each in a row.
pub fn pane_list_payload(panes: &Vec<PaneSummary>, focused_pane_id: Option<u32>) -> (r: Json)
    ensures
        r@ == JsonView::Object(
            map!["panes"@ => JsonView::Array(pane_rows(panes@, focused_pane_id))],
        ),
{
    let mut rows: Vec<Json> = Vec::new();
    let mut i: usize = 0;
    while i < panes.len()
        invariant
            i <= panes@.len(),
            views(rows@) =~= pane_rows(panes@, focused_pane_id).take(i as int),
        decreases panes@.len() - i,
    {
        let ghost before = rows@;
        let row = pane_row(i, focused_pane_id, &panes[i]);
        rows.push(row);
        assert(views(rows@) =~= views(before).push(row@));
        i += 1;
    }
    assert(pane_rows(panes@, focused_pane_id).take(i as int) =~= pane_rows(
        panes@,
        focused_pane_id,
    ));
    Json::object().with("panes", Json::array(rows))
}

/// The surfaces of one pane, or all of them.
pub open spec fn surfaces_of(surfaces: Seq<SurfaceSummary>, pane: Option<u32>) -> Seq<
    SurfaceView,
>
    decreases surfaces.len(),
{
    if surfaces.len() == 0 {
        Seq::empty()
    } else {
        let rest = surfaces_of(surfaces.drop_last(), pane);
        if pane is None || pane == Some(surfaces.last().pane_id) {
            rest.push(surfaces.last()@)
        } else {
            rest
        }
    }
}

/// A surface in a list of them.
pub open spec fn surface_fields(index: usize, focused: Option<Seq<char>>, s: SurfaceView) -> Map<
    Seq<char>,
    JsonView,
> {
    let base = map![
        "surface_id"@ => text(s.surface_id),
        "surface_ref"@ => text(surface_handle(s.surface_id)),
        "pane_id"@ => pane_number(s.pane_id),
        "pane_ref"@ => text(pane_handle(s.pane_id)),
        "index"@ => number(index as u64),
        "title"@ => text(s.title),
        "type"@ => text(s.kind),
        "selected"@ => JsonView::Bool(s.selected),
        "focused"@ => JsonView::Bool(focused == Some(s.surface_id)),
    ];
    with_text(with_text(base, "cwd"@, s.cwd), "uri"@, s.uri)
}

fn is_focused(focused: &Option<String>, id: &str) -> (r: bool)
    ensures
        r == (optional_text(*focused) == Some(id@)),
{
    match focused {
        Some(focused) => same(focused.as_str(), id),
        None => false,
    }
}

fn surface_row(index: usize, focused: &Option<String>, surface: &SurfaceSummary) -> (r: Json)
    ensures
        r@ == JsonView::Object(surface_fields(index, optional_text(*focused), surface@)),
{
    let id = surface.surface_id.as_str();
    let base = Json::object().with("surface_id", Json::text(id)).with(
        "surface_ref",
        Json::Text(surface_ref(id)),
    ).with("pane_id", pane_text(surface.pane_id)).with(
        "pane_ref",
        Json::Text(pane_ref(surface.pane_id)),
    ).with("index", Json::unsigned(index as u64)).with(
        "title",
        Json::text(surface.title.as_str()),
    ).with("type", Json::text(surface.kind.as_str())).with(
        "selected",
        Json::Bool(surface.selected),
    ).with("focused", Json::Bool(is_focused(focused, id)));
    let base = add_text(base, "cwd", &surface.cwd);
    add_text(base, "uri", &surface.uri)
}

pub open spec fn surface_rows(surfaces: Seq<SurfaceView>, focused: Option<Seq<char>>) -> Seq<
    JsonView,
> {
    Seq::new(
        surfaces.len(),
        |i: int| JsonView::Object(surface_fields(i as usize, focused, surfaces[i])),
    )
}

/// The surfaces of a workspace, or of one of its panes, each in a row.
pub fn surface_list_payload(
    surfaces: &Vec<SurfaceSummary>,
    focused_surface_id: &Option<String>,
    pane_filter: Option<u32>,
) -> (r: Json)
    ensures
        r@ == JsonView::Object(
            map![
                "surfaces"@ => JsonView::Array(
                    surface_rows(
                        surfaces_of(surfaces@, pane_filter),
                        optional_text(*focused_surface_id),
                    ),
                ),
            ],
        ),
{
    let ghost focused = optional_text(*focused_surface_id);
    let mut rows: Vec<Json> = Vec::new();
    let mut i: usize = 0;
    assert(surfaces@.take(0).len() == 0);
    assert(views(rows@) =~= surface_rows(surfaces_of(surfaces@.take(0), pane_filter), focused));
    while i < surfaces.len()
        invariant
            i <= surfaces@.len(),
            rows@.len() <= i,
            focused == optional_text(*focused_surface_id),
            views(rows@) == surface_rows(
                surfaces_of(surfaces@.take(i as int), pane_filter),
                focused,
            ),
        decreases surfaces@.len() - i,
    {
        let ghost before = rows@;
        let ghost listed = surfaces_of(surfaces@.take(i as int), pane_filter);
        assert(surfaces@.take(i + 1).drop_last() =~= surfaces@.take(i as int));
        assert(views(before).len() == listed.len());
        let surface = &surfaces[i];
        let wanted = match pane_filter {
            Some(pane) => surface.pane_id == pane,
            None => true,
        };
        if wanted {
            let row = surface_row(rows.len(), focused_surface_id, surface);
            rows.push(row);
            assert(views(rows@) =~= views(before).push(row@));
            assert(views(before).push(row@) =~= surface_rows(listed.push(surface@), focused));
        }
        i += 1;
    }
    assert(surfaces@.take(i as int) =~= surfaces@);
    Json::object().with("surfaces", Json::array(rows))
}

/// The fields on the health of a surface. A terminal is well while it runs; one
/// that cannot be found is not; anything else always is.
pub open spec fn health_fields(
    fields: Map<Seq<char>, JsonView>,
    kind: Seq<char>,
    health: Option<TerminalHealth>,
) -> Map<Seq<char>, JsonView> {
    if kind != "terminal"@ {
        fields.insert("healthy"@, JsonView::Bool(true)).insert(
            "realized"@,
            JsonView::Bool(true),
        ).insert("process_exited"@, JsonView::Bool(false))
    } else {
        match health {
            Some(health) => fields.insert(
                "healthy"@,
                JsonView::Bool(health.realized && !health.process_exited),
            ).insert("realized"@, JsonView::Bool(health.realized)).insert(
                "process_exited"@,
                JsonView::Bool(health.process_exited),
            ).insert("columns"@, number(health.columns as u64)).insert(
                "rows"@,
                number(health.rows as u64),
            ).insert("width_px"@, number(health.width_px as u64)).insert(
                "height_px"@,
                number(health.height_px as u64),
            ),
            None => fields.insert("healthy"@, JsonView::Bool(false)).insert(
                "realized"@,
                JsonView::Bool(false),
            ).insert("process_exited"@, JsonView::Bool(false)),
        }
    }
}

/// A surface in a list about their health.
pub open spec fn health_row_fields(index: usize, focused: Option<Seq<char>>, s: SurfaceView) -> Map<
    Seq<char>,
    JsonView,
> {
    health_fields(
        map![
            "index"@ => number(index as u64),
            "id"@ => text(s.surface_id),
            "ref"@ => text(surface_handle(s.surface_id)),
            "surface_id"@ => text(s.surface_id),
            "surface_ref"@ => text(surface_handle(s.surface_id)),
            "pane_id"@ => pane_number(s.pane_id),
            "pane_ref"@ => text(pane_handle(s.pane_id)),
            "type"@ => text(s.kind),
            "focused"@ => JsonView::Bool(focused == Some(s.surface_id)),
            "selected"@ => JsonView::Bool(s.selected),
            "in_window"@ => JsonView::Bool(true),
            "hidden"@ => JsonView::Bool(false),
        ],
        s.kind,
        s.health,
    )
}

/// A surface in a list about their health.
pub fn surface_health_row(
    index: usize,
    focused_surface_id: &Option<String>,
    surface: &SurfaceSummary,
) -> (r: Json)
    ensures
        r@ == JsonView::Object(
            health_row_fields(index, optional_text(*focused_surface_id), surface@),
        ),
{
    let id = surface.surface_id.as_str();
    let row = Json::object().with("index", Json::unsigned(index as u64)).with(
        "id",
        Json::text(id),
    ).with("ref", Json::Text(surface_ref(id))).with("surface_id", Json::text(id)).with(
        "surface_ref",
        Json::Text(surface_ref(id)),
    ).with("pane_id", pane_text(surface.pane_id)).with(
        "pane_ref",
        Json::Text(pane_ref(surface.pane_id)),
    ).with("type", Json::text(surface.kind.as_str())).with(
        "focused",
        Json::Bool(is_focused(focused_surface_id, id)),
    ).with("selected", Json::Bool(surface.selected)).with("in_window", Json::Bool(true)).with(
        "hidden",
        Json::Bool(false),
    );
    if !same(surface.kind.as_str(), "terminal") {
        return row.with("healthy", Json::Bool(true)).with("realized", Json::Bool(true)).with(
            "process_exited",
            Json::Bool(false),
        );
    }
    match surface.health {
        Some(health) => row.with(
            "healthy",
            Json::Bool(health.realized && !health.process_exited),
        ).with("realized", Json::Bool(health.realized)).with(
            "process_exited",
            Json::Bool(health.process_exited),
        ).with("columns", Json::unsigned(health.columns as u64)).with(
            "rows",
            Json::unsigned(health.rows as u64),
        ).with("width_px", Json::unsigned(health.width_px as u64)).with(
            "height_px",
            Json::unsigned(health.height_px as u64),
        ),
        None => row.with("healthy", Json::Bool(false)).with("realized", Json::Bool(false)).with(
            "process_exited",
            Json::Bool(false),
        ),
    }
}

/// The surfaces with an identifier, or all of them.
pub open spec fn surfaces_named(surfaces: Seq<SurfaceSummary>, id: Option<Seq<char>>) -> Seq<
    SurfaceView,
>
    decreases surfaces.len(),
{
    if surfaces.len() == 0 {
        Seq::empty()
    } else {
        let rest = surfaces_named(surfaces.drop_last(), id);
        if id is None || id == Some(surfaces.last().surface_id@) {
            rest.push(surfaces.last()@)
        } else {
            rest
        }
    }
}

pub open spec fn health_rows(surfaces: Seq<SurfaceView>, focused: Option<Seq<char>>) -> Seq<
    JsonView,
> {
    Seq::new(
        surfaces.len(),
        |i: int| JsonView::Object(health_row_fields(i as usize, focused, surfaces[i])),
    )
}

/// What a handle of a surface names, if one is given.
pub open spec fn requested_surface(hint: Option<&str>) -> Option<Seq<char>> {
    match hint {
        Some(hint) => Some(named(hint@, "surface:"@)),
        None => None,
    }
}

/// The health of the surface that is asked for, or of all of them. It is an error
/// if one is asked for that is not there.
pub fn surface_health_payload(
    surfaces: &Vec<SurfaceSummary>,
    focused_surface_id: &Option<String>,
    surface_hint: Option<&str>,
) -> (r: Result<Json, BridgeError>)
    ensures
        ({
            let listed = surfaces_named(surfaces@, requested_surface(surface_hint));
            match r {
                Ok(answer) => (surface_hint is None || listed.len() > 0) && answer@
                    == JsonView::Object(
                    map![
                        "surfaces"@ => JsonView::Array(
                            health_rows(listed, optional_text(*focused_surface_id)),
                        ),
                    ],
                ),
                Err(error) => surface_hint is Some && listed.len() == 0 && error.is(
                    ErrorKind::NotFound,
                    "surface not found"@,
                ),
            }
        }),
{
    let ghost focused = optional_text(*focused_surface_id);
    let ghost wanted_id = requested_surface(surface_hint);
    let requested: Option<&str> = match surface_hint {
        Some(hint) => Some(normalize_surface_handle(hint)),
        None => None,
    };
    let mut rows: Vec<Json> = Vec::new();
    let mut i: usize = 0;
    assert(surfaces@.take(0).len() == 0);
    assert(views(rows@) =~= health_rows(surfaces_named(surfaces@.take(0), wanted_id), focused));
    while i < surfaces.len()
        invariant
            i <= surfaces@.len(),
            rows@.len() <= i,
            focused == optional_text(*focused_surface_id),
            wanted_id == crate::text::optional_str(requested),
            views(rows@) == health_rows(
                surfaces_named(surfaces@.take(i as int), wanted_id),
                focused,
            ),
        decreases surfaces@.len() - i,
    {
        let ghost before = rows@;
        let ghost listed = surfaces_named(surfaces@.take(i as int), wanted_id);
        assert(surfaces@.take(i + 1).drop_last() =~= surfaces@.take(i as int));
        assert(views(before).len() == listed.len());
        let surface = &surfaces[i];
        let wanted = match requested {
            Some(id) => same(surface.surface_id.as_str(), id),
            None => true,
        };
        if wanted {
            let row = surface_health_row(rows.len(), focused_surface_id, surface);
            rows.push(row);
            assert(views(rows@) =~= views(before).push(row@));
            assert(views(before).push(row@) =~= health_rows(listed.push(surface@), focused));
        }
        i += 1;
    }
    assert(surfaces@.take(i as int) =~= surfaces@);
    assert(views(rows@).len() == rows@.len());
    if surface_hint.is_some() && rows.len() == 0 {
        return Err(BridgeError::not_found("surface not found"));
    }
    Ok(Json::object().with("surfaces", Json::array(rows)))
}

/// The answer to the request for a new pane.
pub open spec fn pane_create_fields(id: Seq<char>, name: Seq<char>, s: SurfaceView) -> Map<
    Seq<char>,
    JsonView,
> {
    map![
        "workspace_id"@ => text(id),
        "workspace_ref"@ => text(workspace_handle(id)),
        "workspace"@ => JsonView::Object(map![
            "id"@ => text(id),
            "ref"@ => text(workspace_handle(id)),
            "workspace_id"@ => text(id),
            "workspace_ref"@ => text(workspace_handle(id)),
            "title"@ => text(name),
            "name"@ => text(name),
        ]),
        "title"@ => text(name),
        "name"@ => text(name),
        "pane_id"@ => pane_number(s.pane_id),
        "pane_ref"@ => text(pane_handle(s.pane_id)),
        "surface_id"@ => text(s.surface_id),
        "surface_ref"@ => text(surface_handle(s.surface_id)),
        "surface_title"@ => text(s.title),
        "surface_type"@ => text(s.kind),
        "ok"@ => JsonView::Bool(true),
    ]
}

/// The answer to the request for a new pane.
pub fn pane_create_response_payload(
    workspace_id: &str,
    workspace_name: &str,
    surface: &SurfaceSummary,
) -> (r: Json)
    ensures
        r@ == JsonView::Object(pane_create_fields(workspace_id@, workspace_name@, surface@)),
{
    let workspace = Json::object().with("id", Json::text(workspace_id)).with(
        "ref",
        Json::Text(workspace_ref(workspace_id)),
    ).with("workspace_id", Json::text(workspace_id)).with(
        "workspace_ref",
        Json::Text(workspace_ref(workspace_id)),
    ).with("title", Json::text(workspace_name)).with("name", Json::text(workspace_name));
    let id = surface.surface_id.as_str();
    Json::object().with("workspace_id", Json::text(workspace_id)).with(
        "workspace_ref",
        Json::Text(workspace_ref(workspace_id)),
    ).with("workspace", workspace).with("title", Json::text(workspace_name)).with(
        "name",
        Json::text(workspace_name),
    ).with("pane_id", pane_text(surface.pane_id)).with(
        "pane_ref",
        Json::Text(pane_ref(surface.pane_id)),
    ).with("surface_id", Json::text(id)).with("surface_ref", Json::Text(surface_ref(id))).with(
        "surface_title",
        Json::text(surface.title.as_str()),
    ).with("surface_type", Json::text(surface.kind.as_str())).with("ok", Json::Bool(true))
}

proof fn lemma_key_shapes()
    ensures
        "index"@.len() == 5 && "index"@[0] == 'i',
        "title"@.len() == 5 && "title"@[0] == 't',
        "id"@.len() == 2 && "id"@[0] == 'i',
        "ok"@.len() == 2 && "ok"@[0] == 'o',
        "ref"@.len() == 3 && "ref"@[0] == 'r',
        "cwd"@.len() == 3 && "cwd"@[0] == 'c',
        "uri"@.len() == 3 && "uri"@[0] == 'u',
        "name"@.len() == 4 && "name"@[0] == 'n',
        "type"@.len() == 4 && "type"@[0] == 't',
        "rows"@.len() == 4 && "rows"@[0] == 'r',
        "hidden"@.len() == 6,
        "focused"@.len() == 7 && "focused"@[0] == 'f',
        "pane_id"@.len() == 7 && "pane_id"@[0] == 'p',
        "healthy"@.len() == 7 && "healthy"@[0] == 'h',
        "columns"@.len() == 7 && "columns"@[0] == 'c',
        "selected"@.len() == 8 && "selected"@[0] == 's',
        "pane_ref"@.len() == 8 && "pane_ref"@[0] == 'p',
        "realized"@.len() == 8 && "realized"@[0] == 'r',
        "width_px"@.len() == 8 && "width_px"@[0] == 'w',
        "workspace"@.len() == 9 && "workspace"@[0] == 'w',
        "height_px"@.len() == 9 && "height_px"@[0] == 'h',
        "in_window"@.len() == 9 && "in_window"@[0] == 'i',
        "surface_id"@.len() == 10,
        "surface_ref"@.len() == 11,
        "workspace_id"@.len() == 12 && "workspace_id"@[0] == 'w',
        "surface_type"@.len() == 12 && "surface_type"@[0] == 's',
        "workspace_ref"@.len() == 13 && "workspace_ref"@[8] == 'e',
        "surface_title"@.len() == 13 && "surface_title"@[8] == 't',
        "surface_count"@.len() == 13 && "surface_count"@[8] == 'c',
        "process_exited"@.len() == 14,
{
    reveal_strlit("index");
    reveal_strlit("title");
    reveal_strlit("id");
    reveal_strlit("ok");
    reveal_strlit("ref");
    reveal_strlit("cwd");
    reveal_strlit("uri");
    reveal_strlit("name");
    reveal_strlit("type");
    reveal_strlit("rows");
    reveal_strlit("hidden");
    reveal_strlit("focused");
    reveal_strlit("pane_id");
    reveal_strlit("healthy");
    reveal_strlit("columns");
    reveal_strlit("selected");
    reveal_strlit("pane_ref");
    reveal_strlit("realized");
    reveal_strlit("width_px");
    reveal_strlit("workspace");
    reveal_strlit("height_px");
    reveal_strlit("in_window");
    reveal_strlit("surface_id");
    reveal_strlit("surface_ref");
    reveal_strlit("workspace_id");
    reveal_strlit("surface_type");
    reveal_strlit("workspace_ref");
    reveal_strlit("surface_title");
    reveal_strlit("surface_count");
    reveal_strlit("process_exited");
}

/// What an answer says under a key.
pub open spec fn said(fields: Map<Seq<char>, JsonView>, key: Seq<char>) -> Option<JsonView> {
    JsonView::Object(fields).field(key)
}

/// What an answer says of a workspace is that workspace: its identifier, alone and
/// as a handle that leads back to it, its name under both keys, where it is in the
/// list, and whether it is the one that is shown.
pub proof fn lemma_workspace_is_described(index: usize, selected: usize, w: WorkspaceView)
    requires
        w.id.len() > 0 ==> !is_white_space(w.id.last()),
    ensures
        ({
            let row = workspace_fields(index, selected, w);
            let answer = workspace_answer(index, selected, w);
            &&& said(row, "id"@) == Some(text(w.id))
            &&& said(row, "workspace_id"@) == Some(text(w.id))
            &&& said(row, "ref"@) == said(row, "workspace_ref"@)
            &&& said(row, "workspace_ref"@) matches Some(JsonView::Text(handle)) && named(
                handle,
                "workspace:"@,
            ) == w.id
            &&& said(row, "name"@) == Some(text(w.name))
            &&& said(row, "title"@) == Some(text(w.name))
            &&& said(row, "index"@) == Some(number(index as u64))
            &&& said(row, "selected"@) == Some(JsonView::Bool(index == selected))
            &&& said(row, "focused"@) == said(row, "selected"@)
            &&& w.cwd matches Some(cwd) ==> said(row, "cwd"@) == Some(text(cwd))
            &&& w.cwd is None ==> said(row, "cwd"@) == Some(text(Seq::empty()))
            &&& said(answer, "workspace"@) == Some(JsonView::Object(row))
            &&& said(answer, "workspace_id"@) == said(row, "workspace_id"@)
            &&& said(answer, "workspace_ref"@) == said(row, "workspace_ref"@)
            &&& said(answer, "name"@) == said(row, "name"@)
            &&& said(answer, "title"@) == said(row, "title"@)
        }),
{
    lemma_key_shapes();
    lemma_handles_lead_back(w.id, 0);
}

/// The list of workspaces has one row for each, in their order, and exactly the row
/// of the workspace that is shown is marked.
pub proof fn lemma_workspaces_are_listed(workspaces: Workspaces, i: int)
    requires
        0 <= i < workspaces.list@.len(),
    ensures
        workspace_rows(workspaces).len() == workspaces.list@.len(),
        workspace_rows(workspaces)[i].field("id"@) == Some(text(workspaces.list@[i]@.id)),
        workspace_rows(workspaces)[i].field("selected"@) == Some(
            JsonView::Bool(i == workspaces.active_idx),
        ),
        workspace_rows(workspaces)[i].field("index"@) == Some(number(i as u64)),
{
    lemma_key_shapes();
    let w = workspaces.list@[i]@;
    assert(workspaces.list@.len() <= usize::MAX) by {
        assert(workspaces.list.len() == workspaces.list@.len());
    }
    let fields = workspace_fields(i as usize, workspaces.active_idx, w);
    assert(workspace_rows(workspaces)[i] == JsonView::Object(fields));
    assert(said(fields, "id"@) == Some(text(w.id)));
}

/// What an answer says of a pane is that pane: its number, alone and as a handle that
/// leads back to it, how many surfaces it has, the one in front, and whether it has
/// the focus.
pub proof fn lemma_pane_is_described(index: usize, focused: Option<u32>, p: PaneView)
    requires
        p.active_surface_id matches Some(id) ==> id.len() > 0 ==> !is_white_space(id.last()),
    ensures
        ({
            let row = pane_fields(index, focused, p);
            &&& said(row, "pane_id"@) matches Some(JsonView::Text(number)) && number_in(number)
                == Some(p.pane_id)
            &&& said(row, "pane_ref"@) matches Some(JsonView::Text(handle)) && pane_named(handle)
                == Some(p.pane_id)
            &&& said(row, "index"@) == Some(number(index as u64))
            &&& said(row, "surface_count"@) == Some(number(p.surface_count as u64))
            &&& said(row, "focused"@) == Some(JsonView::Bool(focused == Some(p.pane_id)))
            &&& said(row, "selected"@) == said(row, "focused"@)
            &&& said(row, "surface_id"@) is Some <==> p.active_surface_id is Some
            &&& p.active_surface_id matches Some(id) ==> {
                &&& said(row, "surface_id"@) == Some(text(id))
                &&& said(row, "surface_ref"@) matches Some(JsonView::Text(handle)) && named(
                    handle,
                    "surface:"@,
                ) == id
            }
        }),
{
    lemma_key_shapes();
    lemma_number_written_and_read(p.pane_id);
    lemma_handles_lead_back(Seq::empty(), p.pane_id);
    if let Some(id) = p.active_surface_id {
        lemma_handles_lead_back(id, p.pane_id);
    }
}

/// What an answer says of a surface is that surface: its identifier and its pane,
/// alone and as handles that lead back to them, what it is and is called, whether it
/// is in front in its pane, and whether it has the focus. Where it is, and the
/// address that it shows, are said where they are known.
pub proof fn lemma_surface_is_described(index: usize, focused: Option<Seq<char>>, s: SurfaceView)
    requires
        s.surface_id.len() > 0 ==> !is_white_space(s.surface_id.last()),
    ensures
        ({
            let row = surface_fields(index, focused, s);
            &&& said(row, "surface_id"@) == Some(text(s.surface_id))
            &&& said(row, "surface_ref"@) matches Some(JsonView::Text(handle)) && named(
                handle,
                "surface:"@,
            ) == s.surface_id
            &&& said(row, "pane_id"@) matches Some(JsonView::Text(number)) && number_in(number)
                == Some(s.pane_id)
            &&& said(row, "pane_ref"@) matches Some(JsonView::Text(handle)) && pane_named(handle)
                == Some(s.pane_id)
            &&& said(row, "index"@) == Some(number(index as u64))
            &&& said(row, "title"@) == Some(text(s.title))
            &&& said(row, "type"@) == Some(text(s.kind))
            &&& said(row, "selected"@) == Some(JsonView::Bool(s.selected))
            &&& said(row, "focused"@) == Some(JsonView::Bool(focused == Some(s.surface_id)))
            &&& said(row, "cwd"@) is Some <==> (s.cwd matches Some(cwd) && cwd.len() > 0)
            &&& said(row, "cwd"@) matches Some(JsonView::Text(cwd)) ==> s.cwd == Some(cwd)
            &&& said(row, "uri"@) is Some <==> (s.uri matches Some(uri) && uri.len() > 0)
            &&& said(row, "uri"@) matches Some(JsonView::Text(uri)) ==> s.uri == Some(uri)
        }),
{
    lemma_key_shapes();
    lemma_number_written_and_read(s.pane_id);
    lemma_handles_lead_back(s.surface_id, s.pane_id);
}

/// What an answer says of the surface with the focus: its workspace, its pane and
/// itself, by identifiers and by handles, and the workspace's name apart from the
/// surface's.
pub proof fn lemma_focus_is_described(id: Seq<char>, name: Seq<char>, s: SurfaceView)
    ensures
        ({
            let answer = focused_fields(id, name, s);
            &&& said(answer, "workspace_id"@) == Some(text(id))
            &&& said(answer, "workspace_ref"@) == Some(text(workspace_handle(id)))
            &&& said(answer, "name"@) == Some(text(name))
            &&& said(answer, "title"@) == Some(text(name))
            &&& said(answer, "pane_id"@) == Some(pane_number(s.pane_id))
            &&& said(answer, "pane_ref"@) == Some(text(pane_handle(s.pane_id)))
            &&& said(answer, "surface_id"@) == Some(text(s.surface_id))
            &&& said(answer, "surface_ref"@) == Some(text(surface_handle(s.surface_id)))
            &&& said(answer, "surface_type"@) == Some(text(s.kind))
            &&& s.title.len() > 0 ==> said(answer, "surface_title"@) == Some(text(s.title))
            &&& s.title.len() == 0 ==> said(answer, "surface_title"@) is None
            &&& said(answer, "cwd"@) is Some <==> (s.cwd matches Some(cwd) && cwd.len() > 0)
            &&& said(answer, "cwd"@) matches Some(JsonView::Text(cwd)) ==> s.cwd == Some(cwd)
            &&& said(answer, "uri"@) is Some <==> (s.uri matches Some(uri) && uri.len() > 0)
            &&& said(answer, "uri"@) matches Some(JsonView::Text(uri)) ==> s.uri == Some(uri)
        }),
{
    lemma_key_shapes();
}

/// What is said of a pane that was made: its workspace, the pane and its surface.
pub proof fn lemma_new_pane_is_described(id: Seq<char>, name: Seq<char>, s: SurfaceView)
    ensures
        ({
            let answer = pane_create_fields(id, name, s);
            &&& said(answer, "ok"@) == Some(JsonView::Bool(true))
            &&& said(answer, "workspace_id"@) == Some(text(id))
            &&& said(answer, "workspace_ref"@) == Some(text(workspace_handle(id)))
            &&& said(answer, "name"@) == Some(text(name))
            &&& said(answer, "title"@) == Some(text(name))
            &&& said(answer, "pane_id"@) == Some(pane_number(s.pane_id))
            &&& said(answer, "pane_ref"@) == Some(text(pane_handle(s.pane_id)))
            &&& said(answer, "surface_id"@) == Some(text(s.surface_id))
            &&& said(answer, "surface_ref"@) == Some(text(surface_handle(s.surface_id)))
            &&& said(answer, "surface_title"@) == Some(text(s.title))
            &&& said(answer, "surface_type"@) == Some(text(s.kind))
            &&& said(answer, "workspace"@) matches Some(workspace) && {
                &&& workspace.field("id"@) == Some(text(id))
                &&& workspace.field("ref"@) == Some(text(workspace_handle(id)))
                &&& workspace.field("name"@) == Some(text(name))
            }
        }),
{
    lemma_key_shapes();
}

/// A surface counts as healthy where it is no terminal, and where it is one that is
/// drawn and whose program runs; of a terminal nothing is known of, nothing good is
/// said. Sizes are told of terminals alone, each under its own name.
pub proof fn lemma_health_is_told(index: usize, focused: Option<Seq<char>>, s: SurfaceView)
    ensures
        ({
            let row = health_row_fields(index, focused, s);
            let terminal = s.kind == "terminal"@;
            &&& said(row, "surface_id"@) == Some(text(s.surface_id))
            &&& said(row, "id"@) == Some(text(s.surface_id))
            &&& said(row, "surface_ref"@) == Some(text(surface_handle(s.surface_id)))
            &&& said(row, "pane_id"@) == Some(pane_number(s.pane_id))
            &&& said(row, "type"@) == Some(text(s.kind))
            &&& said(row, "index"@) == Some(number(index as u64))
            &&& said(row, "focused"@) == Some(JsonView::Bool(focused == Some(s.surface_id)))
            &&& said(row, "selected"@) == Some(JsonView::Bool(s.selected))
            &&& said(row, "healthy"@) == Some(JsonView::Bool(true)) <==> (!terminal || (s.health
                matches Some(health) && health.realized && !health.process_exited))
            &&& said(row, "healthy"@) is Some
            &&& !terminal || s.health is None ==> said(row, "columns"@) is None && said(
                row,
                "rows"@,
            ) is None && said(row, "process_exited"@) == Some(JsonView::Bool(false)) && said(
                row,
                "realized"@,
            ) == Some(JsonView::Bool(!terminal))
            &&& terminal ==> (s.health matches Some(health) ==> {
                &&& said(row, "realized"@) == Some(JsonView::Bool(health.realized))
                &&& said(row, "process_exited"@) == Some(JsonView::Bool(health.process_exited))
                &&& said(row, "columns"@) == Some(number(health.columns as u64))
                &&& said(row, "rows"@) == Some(number(health.rows as u64))
                &&& said(row, "width_px"@) == Some(number(health.width_px as u64))
                &&& said(row, "height_px"@) == Some(number(health.height_px as u64))
            })
        }),
{
    lemma_key_shapes();
}

/// The surfaces that are listed are those that were asked for, of one pane or all,
/// in their order; and those under an identifier likewise.
pub proof fn lemma_surfaces_are_listed(
    surfaces: Seq<SurfaceSummary>,
    more: Seq<SurfaceSummary>,
    pane: Option<u32>,
    id: Option<Seq<char>>,
)
    ensures
        surfaces_of(surfaces + more, pane) == surfaces_of(surfaces, pane) + surfaces_of(more, pane),
        more.len() == 1 ==> {
            let listed = surfaces_of(more, pane);
            &&& listed.len() == 1 <==> pane is None || pane == Some(more[0].pane_id)
            &&& listed.len() <= 1
            &&& listed.len() == 1 ==> listed[0] == more[0]@
        },
        surfaces_named(surfaces + more, id) == surfaces_named(surfaces, id) + surfaces_named(
            more,
            id,
        ),
        more.len() == 1 ==> {
            let listed = surfaces_named(more, id);
            &&& listed.len() == 1 <==> id is None || id == Some(more[0].surface_id@)
            &&& listed.len() <= 1
            &&& listed.len() == 1 ==> listed[0] == more[0]@
        },
    decreases more.len(),
{
    if more.len() == 0 {
        assert(surfaces + more =~= surfaces);
        assert(surfaces_of(surfaces, pane) + surfaces_of(more, pane) =~= surfaces_of(
            surfaces,
            pane,
        ));
        assert(surfaces_named(surfaces, id) + surfaces_named(more, id) =~= surfaces_named(
            surfaces,
            id,
        ));
    } else {
        let all = surfaces + more;
        assert(all.drop_last() =~= surfaces + more.drop_last());
        assert(all.last() == more.last());
        lemma_surfaces_are_listed(surfaces, more.drop_last(), pane, id);
        assert(surfaces_of(all, pane) =~= surfaces_of(surfaces, pane) + surfaces_of(more, pane));
        assert(surfaces_named(all, id) =~= surfaces_named(surfaces, id) + surfaces_named(more, id));
        if more.len() == 1 {
            assert(more.drop_last().len() == 0);
        }
    }
}

/// The focus counts only in the workspace that is shown, and is then the focus of the
/// window.
pub proof fn lemma_focus_is_in_shown_workspace(
    workspaces: Workspaces,
    id: Seq<char>,
    focused: Option<SurfaceView>,
)
    ensures
        ({
            let focus = focus_in(workspaces, id, focused);
            &&& focus is Some ==> focus == focused
            &&& focus is Some ==> (workspaces.active() matches Some(w) && w.id == id)
            &&& (workspaces.active() matches Some(w) && w.id == id) ==> focus == focused
            &&& focused_pane(focus) is Some <==> focus is Some
            &&& focus matches Some(s) ==> focused_pane(focus) == Some(s.pane_id)
                && focused_surface(focus) == Some(s.surface_id)
        }),
{
}

} // verus!
