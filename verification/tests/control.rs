use limux_host::json::{Json, JsonNumber};
use limux_host::terminal::handle::TerminalHealth;
use limux_host::window::control::{
    command_gave_up, handle_control_command, not_initialized, notification_plan, pane_created,
    rename_workspace, terminal_found, terminal_used, workspace_created, workspace_selected,
    CommandRun, ControlCommand, ControlStep, PaneCreateRequest, PaneCreateType, PaneCreatedStep,
    RunOutcome, SplitOutcome, TerminalUse, TerminalUsed, WorkspaceContents, World,
    PANE_CREATE_COMMAND_READY_ATTEMPTS,
};
use limux_host::window::handles::{
    normalize_surface_handle, normalize_workspace_handle, pane_ref, parse_pane_handle, surface_ref,
    workspace_ref,
};
use limux_host::window::payload::{PaneSummary, SurfaceSummary};
use limux_host::window::targets::{
    BridgeError, ErrorKind, PaneCreateDirection, WorkspaceTarget,
};
use limux_host::window::workspaces::{Workspace, Workspaces};
use serde_json::Value;

fn value_of(json: &Json) -> Value {
    match json {
        Json::Null => Value::Null,
        Json::Bool(b) => Value::Bool(*b),
        Json::Number(JsonNumber::Unsigned(n)) => Value::from(*n),
        Json::Number(JsonNumber::Negative(n)) => Value::from(*n),
        Json::Number(JsonNumber::Float(bits)) => Value::from(f64::from_bits(*bits)),
        Json::Text(s) => Value::String(s.clone()),
        Json::Array(items) => Value::Array(items.iter().map(value_of).collect()),
        Json::Object(entries) => {
            let mut map = serde_json::Map::new();
            for (key, value) in entries {
                map.insert(key.clone(), value_of(value));
            }
            Value::Object(map)
        }
    }
}

fn parse(text: &str) -> Value {
    serde_json::from_str(text).unwrap()
}

fn workspace(id: &str, name: &str) -> Workspace {
    Workspace {
        id: id.to_string(),
        name: name.to_string(),
        favorite: false,
        unread: false,
        cwd: Some(format!("/{name}")),
        folder_path: None,
    }
}

fn surface(id: &str, pane_id: u32, kind: &str) -> SurfaceSummary {
    SurfaceSummary {
        surface_id: id.to_string(),
        pane_id,
        title: "sh".to_string(),
        kind: kind.to_string(),
        selected: true,
        cwd: Some("/x".to_string()),
        uri: Some(String::new()),
        health: Some(TerminalHealth {
            realized: true,
            process_exited: false,
            columns: 80,
            rows: 24,
            width_px: 800,
            height_px: 480,
        }),
    }
}

fn pane(pane_id: u32, active: Option<&str>) -> PaneSummary {
    PaneSummary {
        pane_id,
        surface_count: 1,
        active_surface_id: active.map(|s| s.to_string()),
    }
}

fn world() -> World {
    World {
        workspaces: Workspaces {
            list: vec![workspace("w1", "one"), workspace("w2", "two")],
            active_idx: 1,
        },
        contents: vec![
            WorkspaceContents {
                panes: vec![pane(1, None)],
                surfaces: vec![surface("1:a", 1, "terminal")],
            },
            WorkspaceContents {
                panes: vec![pane(2, Some("2:b")), pane(3, Some("3:c"))],
                surfaces: vec![surface("2:b", 2, "browser"), surface("3:c", 3, "terminal")],
            },
        ],
        focused: Some(surface("3:c", 3, "terminal")),
    }
}

fn handle(handle: &str) -> WorkspaceTarget {
    WorkspaceTarget::Handle(handle.to_string())
}

fn run(command: ControlCommand) -> ControlStep {
    handle_control_command(&world(), &command, Some("/home/me"), "0.1.0")
}

fn answer(command: ControlCommand) -> Value {
    match run(command) {
        ControlStep::Reply(Ok(answer)) => value_of(&answer),
        other => panic!("{other:?}"),
    }
}

fn failure(command: ControlCommand) -> (ErrorKind, String) {
    match run(command) {
        ControlStep::Reply(Err(error)) => (error.kind, error.message),
        other => panic!("{other:?}"),
    }
}

#[test]
fn handles_lead_back() {
    assert_eq!(workspace_ref("x"), "workspace:x");
    assert_eq!(pane_ref(7), "pane:7");
    assert_eq!(surface_ref("1:a"), "surface:1:a");
    assert_eq!(normalize_workspace_handle("  workspace:x\n"), "x");
    assert_eq!(normalize_workspace_handle("\u{3000}x "), "x");
    assert_eq!(normalize_surface_handle("surface:1:a"), "1:a");
    assert_eq!(parse_pane_handle(" pane:12 "), Some(12));
    assert_eq!(parse_pane_handle("+12"), Some(12));
    assert_eq!(parse_pane_handle("pane:-1"), None);
    assert_eq!(parse_pane_handle("pane:"), None);
    assert_eq!(parse_pane_handle("pane:+"), None);
    assert_eq!(parse_pane_handle("pane: 3"), None);
    assert_eq!(parse_pane_handle("4294967295"), Some(u32::MAX));
    assert_eq!(parse_pane_handle("4294967296"), None);
    assert_eq!(parse_pane_handle("00000000000000000001"), Some(1));
    for raw in ["7", "+7", "-7", "", "+", "07", "7x", "99999999999", "\u{0663}"] {
        assert_eq!(parse_pane_handle(raw), raw.parse::<u32>().ok(), "{raw}");
    }
}

#[test]
fn the_window_says_who_it_is() {
    let expected = parse(
        r#"{ "workspace_id": "w2", "workspace_ref": "workspace:w2", "title": "two", "name": "two",
             "pane_id": "3", "pane_ref": "pane:3", "surface_id": "3:c", "surface_ref": "surface:3:c",
             "surface_title": "sh", "surface_type": "terminal", "cwd": "/x" }"#,
    );
    let identity = answer(ControlCommand::Identify { caller: None });
    assert_eq!(identity["name"], "limux-control");
    assert_eq!(identity["protocol"], "v1+v2");
    assert_eq!(identity["version"], "0.1.0");
    assert_eq!(identity["focused"], expected);
    assert_eq!(identity["caller"], expected);
    let identity = answer(ControlCommand::Identify {
        caller: Some(Json::Array(vec![Json::unsigned(1)])),
    });
    assert_eq!(identity["caller"], parse("[1]"));
}

#[test]
fn workspaces_are_listed() {
    assert_eq!(
        answer(ControlCommand::ListWorkspaces),
        parse(
            r#"{ "workspaces": [
                { "index": 0, "id": "w1", "ref": "workspace:w1", "workspace_id": "w1",
                  "workspace_ref": "workspace:w1", "title": "one", "name": "one",
                  "selected": false, "focused": false, "cwd": "/one" },
                { "index": 1, "id": "w2", "ref": "workspace:w2", "workspace_id": "w2",
                  "workspace_ref": "workspace:w2", "title": "two", "name": "two",
                  "selected": true, "focused": true, "cwd": "/two" } ] }"#
        )
    );
    let current = answer(ControlCommand::CurrentWorkspace);
    assert_eq!(current["workspace_id"], "w2");
    assert_eq!(current["workspace"]["index"], 1);
}

#[test]
fn panes_and_surfaces_are_listed() {
    assert_eq!(
        answer(ControlCommand::ListPanes { target: WorkspaceTarget::Active }),
        parse(
            r#"{ "panes": [
                { "pane_id": "2", "pane_ref": "pane:2", "index": 0, "surface_count": 1,
                  "focused": false, "selected": false, "surface_id": "2:b",
                  "surface_ref": "surface:2:b" },
                { "pane_id": "3", "pane_ref": "pane:3", "index": 1, "surface_count": 1,
                  "focused": true, "selected": true, "surface_id": "3:c",
                  "surface_ref": "surface:3:c" } ] }"#
        )
    );
    assert_eq!(
        answer(ControlCommand::ListPaneSurfaces {
            target: handle("workspace:w2"),
            pane_id: Some("pane:3".to_string())
        }),
        parse(
            r#"{ "surfaces": [
                { "surface_id": "3:c", "surface_ref": "surface:3:c", "pane_id": "3",
                  "pane_ref": "pane:3", "index": 0, "title": "sh", "type": "terminal",
                  "selected": true, "focused": true, "cwd": "/x" } ] }"#
        )
    );
    let elsewhere = answer(ControlCommand::ListSurfaces { target: handle("w1") });
    assert_eq!(elsewhere["surfaces"][0]["focused"], false);
    assert_eq!(
        failure(ControlCommand::ListPaneSurfaces {
            target: WorkspaceTarget::Active,
            pane_id: Some("x".to_string())
        }),
        (ErrorKind::InvalidParams, "pane.surfaces requires a valid pane_id".to_string())
    );
    assert_eq!(
        failure(ControlCommand::ListPaneSurfaces {
            target: WorkspaceTarget::Active,
            pane_id: Some("9".to_string())
        }),
        (ErrorKind::NotFound, "pane not found".to_string())
    );
    assert_eq!(
        failure(ControlCommand::ListPanes { target: WorkspaceTarget::Index(2) }),
        (ErrorKind::NotFound, "workspace not found".to_string())
    );
}

#[test]
fn the_health_of_surfaces_is_told() {
    let health = answer(ControlCommand::SurfaceHealth {
        target: WorkspaceTarget::Name("two".to_string()),
        surface_hint: Some("surface:3:c".to_string()),
    });
    assert_eq!(
        health,
        parse(
            r#"{ "surfaces": [
                { "index": 0, "id": "3:c", "ref": "surface:3:c", "surface_id": "3:c",
                  "surface_ref": "surface:3:c", "pane_id": "3", "pane_ref": "pane:3",
                  "type": "terminal", "focused": true, "selected": true, "in_window": true,
                  "hidden": false, "healthy": true, "realized": true, "process_exited": false,
                  "columns": 80, "rows": 24, "width_px": 800, "height_px": 480 } ] }"#
        )
    );
    let all = answer(ControlCommand::SurfaceHealth {
        target: WorkspaceTarget::Active,
        surface_hint: None,
    });
    assert_eq!(all["surfaces"][0]["type"], "browser");
    assert!(all["surfaces"][0].get("columns").is_none());
    assert_eq!(
        failure(ControlCommand::SurfaceHealth {
            target: WorkspaceTarget::Active,
            surface_hint: Some("1:a".to_string()),
        }),
        (ErrorKind::NotFound, "surface not found".to_string())
    );
}

fn pane_request(surface: Option<&str>, pane: Option<&str>) -> PaneCreateRequest {
    PaneCreateRequest {
        target: WorkspaceTarget::Active,
        pane_type: PaneCreateType::Terminal,
        direction: PaneCreateDirection::Up,
        source_pane_id: pane.map(|s| s.to_string()),
        source_surface_id: surface.map(|s| s.to_string()),
        command: Some("ls".to_string()),
    }
}

#[test]
fn a_new_pane_splits_the_right_one() {
    let split_at = |request| match run(ControlCommand::CreatePane { request }) {
        ControlStep::SplitPane { pane_id, workspace_id, workspace_name, placement, command } => {
            assert_eq!((workspace_id.as_str(), workspace_name.as_str()), ("w2", "two"));
            assert!(placement.new_pane_first);
            assert_eq!(command.as_deref(), Some("ls"));
            pane_id
        }
        other => panic!("{other:?}"),
    };
    assert_eq!(split_at(pane_request(Some("2:b"), Some("3"))), 2);
    assert_eq!(split_at(pane_request(None, Some("pane:2"))), 2);
    assert_eq!(split_at(pane_request(None, None)), 3);

    let fails = |request| failure(ControlCommand::CreatePane { request });
    assert_eq!(
        fails(pane_request(Some("1:a"), None)),
        (ErrorKind::NotFound, "surface not found".to_string())
    );
    assert_eq!(
        fails(pane_request(None, Some("1"))),
        (ErrorKind::NotFound, "pane not found".to_string())
    );
    assert_eq!(
        fails(pane_request(None, Some("one"))),
        (ErrorKind::InvalidParams, "pane.create requires a valid pane_id".to_string())
    );
    let mut browser = pane_request(None, None);
    browser.pane_type = PaneCreateType::Browser;
    assert_eq!(
        fails(browser),
        (
            ErrorKind::InvalidParams,
            "pane.create live GTK bridge supports type=terminal only".to_string()
        )
    );
    let mut nowhere = pane_request(None, None);
    nowhere.target = handle("w9");
    assert_eq!(fails(nowhere), (ErrorKind::NotFound, "workspace not found".to_string()));
}

#[test]
fn a_new_pane_is_answered() {
    let made = SplitOutcome::Surface(surface("4:d", 4, "terminal"));
    match pane_created("w2", "two", &made, &None) {
        PaneCreatedStep::Reply(Ok(answer)) => assert_eq!(
            value_of(&answer),
            parse(
                r#"{ "workspace_id": "w2", "workspace_ref": "workspace:w2",
                     "workspace": { "id": "w2", "ref": "workspace:w2", "workspace_id": "w2",
                       "workspace_ref": "workspace:w2", "title": "two", "name": "two" },
                     "title": "two", "name": "two", "pane_id": "4", "pane_ref": "pane:4",
                     "surface_id": "4:d", "surface_ref": "surface:4:d", "surface_title": "sh",
                     "surface_type": "terminal", "ok": true }"#
            )
        ),
        other => panic!("{other:?}"),
    }
    match pane_created("w2", "two", &made, &Some("ls".to_string())) {
        PaneCreatedStep::RunCommand { surface_id, command, .. } => {
            assert_eq!((surface_id.as_str(), command.as_str()), ("4:d", "ls"));
        }
        other => panic!("{other:?}"),
    }
    assert_eq!(
        pane_created("w2", "two", &SplitOutcome::NoRoom, &None),
        PaneCreatedStep::Reply(Err(BridgeError::invalid_params("not enough room to split pane")))
    );
    assert_eq!(
        pane_created("w2", "two", &SplitOutcome::NoSurface, &None),
        PaneCreatedStep::Reply(Err(BridgeError::internal(
            "pane.create did not produce a terminal surface"
        )))
    );
}

#[test]
fn a_command_is_tried_until_it_runs_or_time_is_up() {
    let mut run = CommandRun::new();
    assert!(!run.sends_text(false));
    assert!(run.sends_text(true));
    assert_eq!(run.end_try(true, false), RunOutcome::Again);
    assert!(!run.sends_text(true));
    assert!(run.sends_enter(true, false));
    assert_eq!(run.end_try(false, true), RunOutcome::Running);

    let mut run = CommandRun::new();
    let mut tries = 0;
    loop {
        tries += 1;
        match run.end_try(false, false) {
            RunOutcome::Again => {}
            RunOutcome::GaveUp => break,
            RunOutcome::Running => panic!("nothing was sent"),
        }
    }
    assert_eq!(tries, PANE_CREATE_COMMAND_READY_ATTEMPTS);
    assert_eq!(
        command_gave_up("4:d"),
        BridgeError::internal("pane.create command target surface 4:d never became writable")
    );
}

#[test]
fn workspaces_are_opened_selected_renamed_and_closed() {
    let create = |name: Option<&str>, cwd: Option<&str>| {
        match run(ControlCommand::CreateWorkspace {
            name: name.map(|s| s.to_string()),
            cwd: cwd.map(|s| s.to_string()),
            command: None,
        }) {
            ControlStep::CreateWorkspace { title, folder_path, .. } => (title, folder_path),
            other => panic!("{other:?}"),
        }
    };
    assert_eq!(create(None, None), ("me".to_string(), "/home/me".to_string()));
    assert_eq!(create(None, Some("/srv/www/")), ("www".to_string(), "/srv/www/".to_string()));
    assert_eq!(create(None, Some("/")), ("workspace".to_string(), "/".to_string()));
    assert_eq!(create(None, Some("a/..")), ("workspace".to_string(), "a/..".to_string()));
    assert_eq!(create(Some("n"), Some("/a")), ("n".to_string(), "/a".to_string()));

    let mut workspaces = world().workspaces;
    let created = workspace_created(&workspaces, Some("make".to_string()));
    assert_eq!(
        created.run,
        Some(("w2".to_string(), vec!["make".to_string(), "\n".to_string()]))
    );
    let none = Workspaces { list: Vec::new(), active_idx: 0 };
    assert_eq!(
        workspace_created(&none, None).reply,
        Err(BridgeError::internal("workspace.create did not produce a workspace"))
    );

    assert_eq!(
        run(ControlCommand::SelectWorkspace { target: WorkspaceTarget::Index(0) }),
        ControlStep::SelectWorkspace(0)
    );
    assert_eq!(value_of(&workspace_selected(&workspaces, 0).unwrap())["name"], "one");
    assert_eq!(
        workspace_selected(&workspaces, 5),
        Err(BridgeError::not_found("workspace not found"))
    );
    assert_eq!(
        run(ControlCommand::RenameWorkspace { target: handle("w1"), title: "uno".to_string() }),
        ControlStep::RenameWorkspace { index: 0, title: "uno".to_string() }
    );
    let renamed = rename_workspace(&mut workspaces, 0, "uno");
    assert!(renamed.save_session);
    assert_eq!(value_of(&renamed.reply.unwrap())["workspace"]["title"], "uno");
    assert_eq!(workspaces.list[0].name, "uno");

    match run(ControlCommand::CloseWorkspace { target: handle("w1") }) {
        ControlStep::CloseWorkspace { workspace_id, answer } => {
            assert_eq!(workspace_id, "w1");
            assert_eq!(value_of(&answer)["name"], "one");
        }
        other => panic!("{other:?}"),
    }
    assert_eq!(
        failure(ControlCommand::CloseWorkspace { target: handle("w9") }),
        (ErrorKind::NotFound, "workspace not found".to_string())
    );
    let mut lonely = world();
    lonely.workspaces.list.pop();
    lonely.contents.pop();
    lonely.workspaces.active_idx = 0;
    assert_eq!(
        handle_control_command(
            &lonely,
            &ControlCommand::CloseWorkspace { target: WorkspaceTarget::Active },
            None,
            ""
        ),
        ControlStep::Reply(Err(BridgeError::conflict("cannot close workspace")))
    );
}

#[test]
fn terminals_are_used() {
    assert_eq!(
        run(ControlCommand::SendText {
            target: WorkspaceTarget::Active,
            surface_hint: None,
            text: "ls\n".to_string()
        }),
        ControlStep::UseTerminal {
            workspace: 1,
            hint: Some("3:c".to_string()),
            wanted: TerminalUse::SendText("ls\n".to_string())
        }
    );
    assert_eq!(
        run(ControlCommand::ReadSurfaceText { target: WorkspaceTarget::Active, surface_hint: None }),
        ControlStep::UseTerminal { workspace: 1, hint: None, wanted: TerminalUse::ReadText }
    );
    assert_eq!(
        run(ControlCommand::SendKey {
            target: handle("w1"),
            surface_hint: Some("1:a".to_string()),
            key: "enter".to_string()
        }),
        ControlStep::UseTerminal {
            workspace: 0,
            hint: Some("1:a".to_string()),
            wanted: TerminalUse::SendKey("enter".to_string())
        }
    );
    assert_eq!(
        terminal_found(&None),
        Err(BridgeError::not_found("terminal surface not found"))
    );
    assert_eq!(
        value_of(&terminal_used("w1", "1:a", &TerminalUsed::SentText).unwrap()),
        parse(
            r#"{ "workspace_id": "w1", "workspace_ref": "workspace:w1", "surface_id": "1:a",
                 "surface_ref": "surface:1:a", "ok": true }"#
        )
    );
    let read = TerminalUsed::ReadText(Some("$ ".to_string()));
    assert_eq!(value_of(&terminal_used("w1", "1:a", &read).unwrap())["text"], "$ ");
    assert_eq!(
        terminal_used("w1", "1:a", &TerminalUsed::ReadText(None)),
        Err(BridgeError::internal("surface.read_text failed"))
    );
    assert_eq!(
        terminal_used("w1", "1:a", &TerminalUsed::SentKey(false)),
        Err(BridgeError::invalid_params("unsupported key"))
    );
}

#[test]
fn notifications_are_planned() {
    assert_eq!(
        run(ControlCommand::CreateNotification {
            target: handle("w1"),
            surface_hint: None,
            title: "T".to_string(),
            subtitle: "S".to_string(),
            body: "B".to_string()
        }),
        ControlStep::Notify {
            workspace: 0,
            surface_hint: None,
            title: "T".to_string(),
            subtitle: "S".to_string(),
            body: "B".to_string()
        }
    );
    let workspaces = world().workspaces;
    let plan = notification_plan(
        &workspaces,
        1,
        &Some((3, "tab".to_string())),
        true,
        "T",
        "S",
        "B",
    );
    assert_eq!(plan.message, "T: S \u{2014} B");
    assert_eq!(plan.target.workspace_id, "w2");
    assert_eq!(plan.target.pane_id, Some(3));
    assert!(plan.focused_if_visible);
    assert_eq!(
        value_of(&plan.answer),
        parse(
            r#"{ "ok": true, "workspace_id": "w2", "workspace_ref": "workspace:w2", "title": "T",
                 "subtitle": "S", "body": "B" }"#
        )
    );
    assert!(!notification_plan(&workspaces, 1, &None, true, "", "", "").focused_if_visible);
    assert_eq!(
        not_initialized(),
        BridgeError::internal("control bridge not initialized")
    );
}
