use limux_host::app_config::{AppConfig, ColorScheme, NotificationSound, UiScale};
use limux_host::split_tree::{LayoutNodeState, Orientation, PaneState, SplitNode};
use limux_host::window::appearance::{
    adw_color_scheme_for, config_changed, config_saved, ghostty_prefers_dark,
    gnome_prefers_dark_from_raw, gtk_system_prefers_dark_from_raw,
    portal_setting_changed_preference, resolved_system_prefers_dark, ConfigEffect,
    PortalColorSchemePreference, SystemPreference, WindowScheme, GTK_INTERFACE_COLOR_SCHEME_DARK,
    GTK_INTERFACE_COLOR_SCHEME_DEFAULT, GTK_INTERFACE_COLOR_SCHEME_LIGHT,
    GTK_INTERFACE_COLOR_SCHEME_UNSUPPORTED,
};
use limux_host::window::css::{
    app_css, build_window_css, sanitize_background_opacity, use_opaque_window_background,
    workspace_rename_entry_css_classes, BASE_CSS, HOST_ENTRY_CSS_CLASS,
    WORKSPACE_RENAME_ENTRY_CSS_CLASS,
};
use limux_host::window::focus::{
    best_directional_leaf_pane, best_neighbor, directional_neighbor_score, find_focused_pane,
    find_leaf_focused_pane, focus_pane_in_direction, focus_workspace_entrypoint, neighbor_score_better, overlap_1d, split_to_cross,
    widget_bounds_in_root, Ancestor, Direction, FocusEntry, NeighborScore, PaneBounds, WidgetTree,
};
use limux_host::window::folder::{
    abbreviate_path, default_folder, is_workspace_picker_cancel, picker_failure_message,
    validate_workspace_folder, validate_workspace_folder_input_with_dirs,
    workspace_folder_path_from_input, workspace_path_visible,
    FolderCheck, PickerFailure,
};
use limux_host::window::notifications::{
    activate_desktop_notification_target, clear_visible_tab_unread, combine_body,
    desktop_notification_actions, desktop_notification_hints, focus_desktop_notification_target,
    has_unread, mark_workspace, mark_workspace_unread_with_message,
    resolve_notification_tab_target, should_emit_desktop_notification,
    workspace_notification_message, workspace_unread_visual, DesktopNotificationTarget, FocusStep,
    HintValue, NotificationRoutes, TabTargetResolution,
};
use limux_host::window::panes::{
    broadcast_font_size, close_focused_tab, config_with_font_size, font_size_after_delta, is_pane_visible,
    keep_workspace_open_after_empty_pane, on_empty_pane, pane_removed, persist_font_size, remove_pane,
    save_after_split_with_tab, save_error_detail, split_pane, split_with_tab, EmptyPane,
    FontSizeChange, PaneEmptyReason, PaneRemoval, PaneRemoved, SplitPaneOptions,
};
use limux_host::window::rows::{
    build_sidebar_row, button_drop, button_hover_class, click_commits_rename,
    create_workspace_for_tab, drop_highlight,
    drop_highlight_class, favorite_class, favorite_symbol, parse_dragged_tab, row_drop, tab_drag_workspace_seed,
    tab_moved, workspace_drop_layout_path, ButtonDrop, DraggedTab, DropHighlight, InlineRename,
    NewWorkspaceButton, RenameEnd, RowDrop, RowHover, WorkspaceDrag, WorkspaceSeedSource,
};
use limux_host::window::session::{
    add_workspace_from_state, apply_loaded_session, new_workspace_id, restored_workspace_id,
    saves_after_restore, snapshot_session_state, snapshot_sidebar, snapshot_workspace, stack_name,
    workspace_on_folder, AppSessionState, SessionSave, SessionSaveRequest, SidebarState,
};
use limux_host::window::setup::{has_own_header, icon_search_paths, window_title};
use limux_host::window::shortcuts::{
    action_scope, binding_action, browser_command_requires_existing_target, captured_command,
    dispatch_browser_command, dispatch_shortcut_command, dispatch_terminal_command,
    focused_editable_capture_context, focused_widget_is_editable,
    focused_widget_is_listening_for_keybind_capture, font_size_step, handled,
    new_browser_address, persist_shortcut_binding, shortcut_allowed_while_browser_find_active,
    shortcut_blocked_by_editable, shortcut_dispatch_propagation, spawn_new_instance,
    split_for_command, ActionScope, BindingOutcome,
    BrowserRequest, EditableCaptureContext, EditableCapturePolicy, FocusLink, FocusedBrowser,
    MatchedShortcut, Propagation, ShortcutAction, ShortcutCommand, SpawnOutcome, SplitRequest,
    TerminalRequest,
};
use limux_host::window::sidebar::{
    resize_begin, sidebar_is_visible, toggle_top_bar, top_bar_shown, AnimationEnd, Sidebar,
    SidebarResize, TopBarToggled, SIDEBAR_WIDTH,
};
use limux_host::window::targets::{
    pane_create_split_placement, pane_create_target_error, resolve_pane_create_source_id,
    BridgeError, PaneCreateDirection, PaneCreateSplitPlacement, PaneCreateTargetError,
};
use limux_host::window::workspaces::{
    clamp_workspace_insert_index_for_pinning, favorites_prefix_len, next_active_workspace_index,
    SwitchOutcome, Workspace, Workspaces,
};

fn strings(items: &[&str]) -> Vec<String> {
    items.iter().map(|s| s.to_string()).collect()
}

fn workspace(id: &str, favorite: bool) -> Workspace {
    Workspace {
        id: id.to_string(),
        name: format!("name of {id}"),
        favorite,
        unread: false,
        cwd: None,
        folder_path: None,
    }
}

fn workspaces(list: &[(&str, bool)], active_idx: usize) -> Workspaces {
    Workspaces {
        list: list.iter().map(|(id, f)| workspace(id, *f)).collect(),
        active_idx,
    }
}

fn ids(workspaces: &Workspaces) -> Vec<&str> {
    workspaces.list.iter().map(|w| w.id.as_str()).collect()
}

#[test]
fn favorites_prefix_len_counts_only_leading_favorites() {
    let flags = [true, true, false, true, false];
    assert_eq!(favorites_prefix_len(&flags.to_vec()), 2);
}

#[test]
fn workspace_lifecycle_preference_only_preserves_a_single_closed_pane() {
    assert!(keep_workspace_open_after_empty_pane(
        true,
        PaneEmptyReason::ClosedLastTerminal,
        true,
    ));
    assert!(!keep_workspace_open_after_empty_pane(
        false,
        PaneEmptyReason::ClosedLastTerminal,
        true,
    ));
    assert!(!keep_workspace_open_after_empty_pane(
        true,
        PaneEmptyReason::ClosedLastTerminal,
        false,
    ));
    assert!(!keep_workspace_open_after_empty_pane(
        true,
        PaneEmptyReason::ClosedLastTab,
        true,
    ));
    assert!(!keep_workspace_open_after_empty_pane(
        true,
        PaneEmptyReason::MovedLastTabOut,
        true,
    ));
}

#[test]
fn sanitize_background_opacity_clamps_invalid_values() {
    let sanitize = |x: f64| f64::from_bits(sanitize_background_opacity(x.to_bits()));
    assert_eq!(sanitize(f64::NAN), 1.0);
    assert_eq!(sanitize(-0.2), 0.0);
    assert_eq!(sanitize(1.7), 1.0);
    assert_eq!(sanitize(0.42), 0.42);
}

#[test]
fn transparent_window_background_only_applies_below_full_opacity() {
    let opaque = |x: f64| use_opaque_window_background(x.to_bits());
    assert!(!opaque(0.8));
    assert!(opaque(1.0));
    assert!(opaque(5.0));
    assert!(opaque(f64::NAN));
}

fn bounds(left: f64, top: f64, right: f64, bottom: f64) -> PaneBounds {
    PaneBounds {
        left: left.to_bits(),
        top: top.to_bits(),
        right: right.to_bits(),
        bottom: bottom.to_bits(),
    }
}

#[test]
fn directional_neighbor_score_prefers_row_overlap_when_moving_left() {
    let current = bounds(100.0, 100.0, 200.0, 200.0);
    let top_left = bounds(0.0, 0.0, 100.0, 100.0);
    let bottom_left = bounds(0.0, 100.0, 100.0, 200.0);

    let top_score =
        directional_neighbor_score(current, top_left, Direction::Left).expect("top score");
    let bottom_score =
        directional_neighbor_score(current, bottom_left, Direction::Left).expect("bottom score");

    assert_eq!(
        top_score,
        NeighborScore {
            has_overlap: false,
            overlap: 0,
            gap: 0,
            center_delta: 100,
        }
    );
    assert_eq!(
        bottom_score,
        NeighborScore {
            has_overlap: true,
            overlap: 100,
            gap: 0,
            center_delta: 0,
        }
    );
}

#[test]
fn directional_neighbor_score_prefers_column_overlap_when_moving_up() {
    let current = bounds(100.0, 100.0, 200.0, 200.0);
    let top_left = bounds(0.0, 0.0, 100.0, 100.0);
    let top_right = bounds(100.0, 0.0, 200.0, 100.0);

    let left_score =
        directional_neighbor_score(current, top_left, Direction::Up).expect("left score");
    let right_score =
        directional_neighbor_score(current, top_right, Direction::Up).expect("right score");

    assert_eq!(left_score.overlap, 0);
    assert_eq!(right_score.overlap, 100);
    assert!(right_score.has_overlap);
}

#[test]
fn the_best_neighbor_gets_the_focus() {
    let current = bounds(100.0, 100.0, 200.0, 200.0);
    let candidates = vec![
        None,
        Some(bounds(0.0, 0.0, 100.0, 100.0)),
        Some(bounds(0.0, 100.0, 99.5, 200.0)),
        Some(bounds(0.0, 100.0, 99.5, 200.0)),
        Some(bounds(150.0, 100.0, 300.0, 200.0)),
    ];
    assert_eq!(
        best_directional_leaf_pane(Some(current), &candidates, Direction::Left),
        Some(2)
    );
    assert_eq!(best_directional_leaf_pane(None, &candidates, Direction::Left), None);
    assert_eq!(
        directional_neighbor_score(current, bounds(101.0, 0.0, 102.0, 1.0), Direction::Left),
        None
    );
    assert_eq!(
        directional_neighbor_score(current, bounds(0.0, 100.0, 100.5, 200.0), Direction::Left)
            .unwrap()
            .gap,
        0
    );
    assert_eq!(best_neighbor(&vec![None, None]), None);
    let score = |overlap, gap, center_delta| NeighborScore {
        has_overlap: overlap > 0,
        overlap,
        gap,
        center_delta,
    };
    assert!(neighbor_score_better(score(5, 9, 9), score(4, 0, 0)));
    assert!(neighbor_score_better(score(5, 1, 9), score(5, 2, 0)));
    assert!(neighbor_score_better(score(5, 1, 3), score(5, 1, 4)));
    assert!(!neighbor_score_better(score(5, 1, 3), score(5, 1, 3)));
    assert_eq!(
        overlap_1d(0.0f64.to_bits(), 10.0f64.to_bits(), 9.5f64.to_bits(), 30.0f64.to_bits()),
        1
    );
    assert_eq!(widget_bounds_in_root(0, 5, Some((0, 0))), None);
    assert_eq!(widget_bounds_in_root(5, 5, None), None);
    assert_eq!(
        widget_bounds_in_root(40, 30, Some((1.5f64.to_bits(), 2.5f64.to_bits()))),
        Some(bounds(1.5, 2.5, 41.5, 32.5))
    );
}

#[test]
fn the_focus_crosses_the_nearest_split() {
    let split = |orientation, in_first| Ancestor::Split {
        orientation,
        in_first,
    };
    let ancestors = vec![
        Ancestor::Other,
        split(Orientation::Horizontal, true),
        split(Orientation::Vertical, false),
        split(Orientation::Horizontal, false),
    ];
    assert_eq!(split_to_cross(&ancestors, Direction::Right), Some(1));
    assert_eq!(split_to_cross(&ancestors, Direction::Left), Some(3));
    assert_eq!(split_to_cross(&ancestors, Direction::Up), Some(2));
    assert_eq!(split_to_cross(&ancestors, Direction::Down), None);
    assert_eq!(find_leaf_focused_pane(&vec![false, true, true]), Some(1));
    assert_eq!(find_leaf_focused_pane(&vec![false]), None);
}

#[test]
fn pane_create_split_placement_maps_direction_to_orientation_and_order() {
    assert_eq!(
        pane_create_split_placement(PaneCreateDirection::Left),
        PaneCreateSplitPlacement {
            orientation: Orientation::Horizontal,
            new_pane_first: true,
        }
    );
    assert_eq!(
        pane_create_split_placement(PaneCreateDirection::Right),
        PaneCreateSplitPlacement {
            orientation: Orientation::Horizontal,
            new_pane_first: false,
        }
    );
    assert_eq!(
        pane_create_split_placement(PaneCreateDirection::Up),
        PaneCreateSplitPlacement {
            orientation: Orientation::Vertical,
            new_pane_first: true,
        }
    );
    assert_eq!(
        pane_create_split_placement(PaneCreateDirection::Down),
        PaneCreateSplitPlacement {
            orientation: Orientation::Vertical,
            new_pane_first: false,
        }
    );
}

#[test]
fn pane_create_source_prefers_surface_then_pane_then_active_focus_then_first_leaf() {
    let panes = vec![10, 20, 30];
    let surfaces = vec![("10:aaa".to_string(), 10), ("20:bbb".to_string(), 20)];

    assert_eq!(
        resolve_pane_create_source_id(
            Some("surface:20:bbb"),
            Some(10),
            Some(30),
            true,
            &panes,
            &surfaces,
        ),
        Ok(20)
    );
    assert_eq!(
        resolve_pane_create_source_id(None, Some(10), Some(30), true, &panes, &surfaces),
        Ok(10)
    );
    assert_eq!(
        resolve_pane_create_source_id(None, None, Some(30), true, &panes, &surfaces),
        Ok(30)
    );
    assert_eq!(
        resolve_pane_create_source_id(None, None, Some(30), false, &panes, &surfaces),
        Ok(10)
    );
}

#[test]
fn pane_create_source_reports_invalid_surface_pane_and_empty_workspace() {
    let panes = vec![10, 20];
    let surfaces = vec![("10:aaa".to_string(), 10)];

    assert_eq!(
        resolve_pane_create_source_id(
            Some("missing"),
            Some(10),
            Some(20),
            true,
            &panes,
            &surfaces,
        ),
        Err(PaneCreateTargetError::InvalidSurfaceId(
            "missing".to_string()
        ))
    );
    assert_eq!(
        resolve_pane_create_source_id(None, Some(99), Some(20), true, &panes, &surfaces),
        Err(PaneCreateTargetError::InvalidPaneId(99))
    );
    assert_eq!(
        resolve_pane_create_source_id(None, None, None, true, &Vec::new(), &Vec::new()),
        Err(PaneCreateTargetError::NoPanes)
    );
    assert_eq!(
        pane_create_target_error(&PaneCreateTargetError::NoPanes),
        BridgeError::not_found("pane not found")
    );
    assert_eq!(PaneCreateDirection::from_str("up"), Some(PaneCreateDirection::Up));
    assert_eq!(PaneCreateDirection::from_str("Up"), None);
}

#[test]
fn build_window_css_uses_resolved_background_opacity() {
    let css = build_window_css(0.42f64.to_bits());
    assert!(css.contains(".limux-host-entry"));
    assert!(css.contains(".limux-host-entry text"));
    assert!(css.contains(".limux-host-entry text placeholder"));
    assert!(css.contains(".limux-content"));
    assert!(css.contains("background-color: rgba(23, 23, 23, 0.420);"));
}

#[test]
fn window_css_agrees_with_formatted_opacities() {
    let mut cases: Vec<f64> = vec![0.0, -0.0, 1.0, 0.5, 0.0625, 0.0005, 0.00049999, 1e-300, 5e-324];
    for i in 0..2000 {
        cases.push(i as f64 / 1999.0);
        cases.push(i as f64 / 2048.0);
    }
    for opacity in cases {
        let expected = format!("rgba(23, 23, 23, {opacity:.3});");
        assert!(
            build_window_css(opacity.to_bits()).contains(&expected),
            "{opacity}"
        );
    }
}

#[test]
fn all_styles_are_put_together() {
    let config = AppConfig::default();
    let css = app_css(1.0f64.to_bits(), ".pane {}", ".keys {}", &config);
    assert!(css.starts_with(BASE_CSS));
    assert!(css.contains("\n.pane {}\n.keys {}\n\n.limux-settings-window {"));
    assert!(css.ends_with(".limux-tab-close image { -gtk-icon-size: 12.000px; }"));
}

#[test]
fn font_size_after_delta_uses_default_when_unset() {
    let size = font_size_after_delta(None, 12.0f32.to_bits(), 1.0f32.to_bits());
    assert_eq!(f32::from_bits(size), 13.0);
}

#[test]
fn font_size_after_delta_clamps_to_supported_range() {
    let step = |current: f32, delta: f32| {
        f32::from_bits(font_size_after_delta(
            Some(current.to_bits()),
            12.0f32.to_bits(),
            delta.to_bits(),
        ))
    };
    assert_eq!(step(1.0, -5.0), 1.0);
    assert_eq!(step(255.0, 5.0), 255.0);
    assert_eq!(step(12.7, 1.0), 12.7 + 1.0);
    assert!(step(f32::NAN, 1.0).is_nan());
    assert_eq!(step(f32::INFINITY, 1.0), 255.0);
}

#[test]
fn base_css_defines_theme_aware_host_entry_styles() {
    assert!(BASE_CSS.contains(":root"));
    assert!(BASE_CSS.contains("@media (prefers-color-scheme: dark)"));
    assert!(BASE_CSS.contains(".limux-host-entry"));
    assert!(BASE_CSS.contains(".limux-host-entry text"));
    assert!(BASE_CSS.contains(".limux-host-entry text placeholder"));
    assert!(BASE_CSS.contains("caret-color: currentColor;"));
}

#[test]
fn workspace_rename_entry_uses_shared_host_entry_class() {
    assert_eq!(
        workspace_rename_entry_css_classes(),
        [HOST_ENTRY_CSS_CLASS, WORKSPACE_RENAME_ENTRY_CSS_CLASS]
    );
    assert!(BASE_CSS.contains(".limux-ws-rename-entry"));
}

#[test]
fn outside_rename_click_commits_while_inside_click_preserves_editor() {
    for (click, should_commit) in [
        (Some((0.0f64, 0.0f64)), false),
        (Some((120.0, 32.0)), false),
        (Some((-0.1, 16.0)), true),
        (Some((60.0, 32.1)), true),
        (None, true),
    ] {
        let bits = click.map(|(x, y)| (x.to_bits(), y.to_bits()));
        assert_eq!(
            click_commits_rename(bits, 120, 32),
            should_commit,
            "click: {click:?}"
        );
    }
    let nan = f64::NAN.to_bits();
    assert!(click_commits_rename(Some((nan, 0)), 120, 32));
    assert!(!click_commits_rename(Some(((-0.0f64).to_bits(), 0)), 120, 32));
}

#[test]
fn desktop_notification_actions_include_default_open_action() {
    assert_eq!(
        desktop_notification_actions(),
        vec!["default".to_string(), "Open".to_string()]
    );
}

#[test]
fn queue_session_save_request_sets_queued_once() {
    let mut state = SessionSave::new();

    assert_eq!(
        state.queue_session_save_request(false),
        SessionSaveRequest::FlushOnIdle
    );
    assert!(state.save_queued);
    assert_eq!(
        state.queue_session_save_request(false),
        SessionSaveRequest::Ignore
    );
    assert!(state.flush());
    assert!(!state.flush());
}

#[test]
fn queue_session_save_request_retries_when_state_is_already_borrowed() {
    let mut state = SessionSave::new();

    assert_eq!(
        state.queue_session_save_request(true),
        SessionSaveRequest::RetryOnIdle
    );

    assert!(!state.save_queued);
}

#[test]
fn queue_session_save_request_ignores_suspended_persistence() {
    let mut state = SessionSave {
        persistence_suspended: true,
        save_queued: false,
    };

    assert_eq!(
        state.queue_session_save_request(false),
        SessionSaveRequest::Ignore
    );
    assert!(!state.save_queued);
}

#[test]
fn nothing_is_saved_after_the_window_closed() {
    let mut state = SessionSave::new();
    state.queue_session_save_request(false);
    state.stop_session_saves_for_shutdown();
    assert!(!state.flush());
    assert_eq!(
        state.queue_session_save_request(false),
        SessionSaveRequest::Ignore
    );
    state.suspend_persistence(false);
    assert_eq!(
        state.queue_session_save_request(false),
        SessionSaveRequest::FlushOnIdle
    );
    assert!(saves_after_restore(1, false));
    assert!(saves_after_restore(0, true));
    assert!(!saves_after_restore(0, false));
}

#[test]
fn unpinned_workspace_cannot_move_above_favorites() {
    // Remaining order after removing dragged workspace:
    // [fav, fav, unfav, unfav]
    let after_removal = [true, true, false, false];
    let clamped = clamp_workspace_insert_index_for_pinning(&after_removal.to_vec(), false, 0);
    assert_eq!(clamped, 2);
}

#[test]
fn favorite_workspace_cannot_move_below_unpinned() {
    // Remaining order after removing dragged favorite:
    // [fav, fav, unfav, unfav]
    let after_removal = [true, true, false, false];
    let clamped = clamp_workspace_insert_index_for_pinning(
        &after_removal.to_vec(),
        true,
        after_removal.len(),
    );
    assert_eq!(clamped, 2);
}

#[test]
fn dragging_reorders_and_follows_the_shown_workspace() {
    let mut list = workspaces(&[("a", true), ("b", false), ("c", false), ("d", false)], 1);
    assert!(list.reorder_workspace_by_id("b", "d", true));
    assert_eq!(ids(&list), ["a", "c", "d", "b"]);
    assert_eq!(list.active_idx, 3);
    assert!(list.reorder_workspace_by_id("d", "a", false));
    assert_eq!(ids(&list), ["a", "d", "c", "b"]);
    assert!(list.reorder_workspace_by_id("a", "b", true));
    assert_eq!(ids(&list), ["a", "d", "c", "b"]);
    assert_eq!(list.active_idx, 3);
    assert!(!list.reorder_workspace_by_id("a", "a", true));
    assert!(!list.reorder_workspace_by_id("x", "a", true));
    assert!(!list.reorder_workspace_by_id("a", "x", true));
}

#[test]
fn pinning_moves_to_the_end_of_the_pinned() {
    let mut list = workspaces(&[("a", true), ("b", false), ("c", false)], 0);
    assert!(list.toggle_workspace_favorite("c"));
    assert_eq!(ids(&list), ["a", "c", "b"]);
    assert!(list.list[1].favorite);
    assert_eq!(list.active_idx, 0);
    assert!(list.toggle_workspace_favorite("a"));
    assert_eq!(ids(&list), ["c", "a", "b"]);
    assert!(!list.list[1].favorite);
    assert_eq!(list.active_idx, 1);
    assert!(!list.toggle_workspace_favorite("x"));
}

#[test]
fn closing_and_switching_workspaces() {
    let mut list = workspaces(&[("a", false), ("b", false), ("c", false)], 2);
    assert!(list.close_workspace_by_id("a", None));
    assert_eq!(list.active_idx, 1);
    assert!(list.close_workspace_by_id("c", None));
    assert_eq!((ids(&list), list.active_idx), (vec!["b"], 0));
    assert!(!list.close_workspace_by_id("x", None));
    assert!(list.close_workspace_by_id("b", None));
    assert_eq!(list.active_idx, 0);
    assert!(list.active_workspace().is_none());
    assert_eq!(list.last_workspace(), None);
    assert_eq!(list.restore_target(4), None);

    let mut list = workspaces(&[("a", false), ("b", false), ("c", false)], 0);
    assert_eq!(list.cycle_target(-1), Some(2));
    assert_eq!(list.cycle_target(1), Some(1));
    assert_eq!(list.cycle_target(-7), Some(2));
    assert_eq!(list.cycle_target(i32::MAX), Some(1));
    assert_eq!(list.switch_workspace(3), SwitchOutcome::OutOfRange);
    assert_eq!(list.switch_workspace(0), SwitchOutcome::AlreadyActive);
    assert_eq!(list.switch_workspace(2), SwitchOutcome::Switched);
    assert_eq!(list.cycle_target(1), Some(0));
    assert_eq!(list.restore_target(9), Some(2));
    assert_eq!(list.restore_target(1), Some(1));
    assert_eq!(workspaces(&[("a", false)], 0).cycle_target(1), None);
}

#[test]
fn a_workspace_for_a_tab_that_cannot_move_leaves_no_trace() {
    let mut list = workspaces(&[("a", false), ("b", false)], 0);
    list.push(workspace("new", false));
    assert_eq!(list.active_idx, 2);
    assert!(list.close_workspace_by_id("new", Some("a")));
    assert_eq!(list, workspaces(&[("a", false), ("b", false)], 0));
    assert!(list.set_cwd("b", "/tmp"));
    assert_eq!(list.list[1].cwd.as_deref(), Some("/tmp"));
    assert!(!list.set_cwd("x", "/tmp"));
}

#[test]
fn system_prefers_dark_from_raw_maps_known_values() {
    assert_eq!(
        gtk_system_prefers_dark_from_raw(Some(GTK_INTERFACE_COLOR_SCHEME_DARK)),
        Some(true)
    );
    assert_eq!(
        gtk_system_prefers_dark_from_raw(Some(GTK_INTERFACE_COLOR_SCHEME_LIGHT)),
        Some(false)
    );
    assert_eq!(
        gtk_system_prefers_dark_from_raw(Some(GTK_INTERFACE_COLOR_SCHEME_DEFAULT)),
        Some(false)
    );
    assert_eq!(
        gtk_system_prefers_dark_from_raw(Some(GTK_INTERFACE_COLOR_SCHEME_UNSUPPORTED)),
        None
    );
    assert_eq!(gtk_system_prefers_dark_from_raw(Some(77)), Some(false));
    assert_eq!(gtk_system_prefers_dark_from_raw(None), None);
}

#[test]
fn portal_color_scheme_preference_resolves_with_gnome_fallback() {
    assert_eq!(
        PortalColorSchemePreference::from_raw(1),
        Some(PortalColorSchemePreference::Dark)
    );
    assert_eq!(
        PortalColorSchemePreference::from_raw(2),
        Some(PortalColorSchemePreference::Light)
    );
    assert_eq!(
        PortalColorSchemePreference::from_raw(0),
        Some(PortalColorSchemePreference::Default)
    );
    assert_eq!(
        resolved_system_prefers_dark(PortalColorSchemePreference::Dark, Some(false)),
        Some(true)
    );
    assert_eq!(
        resolved_system_prefers_dark(PortalColorSchemePreference::Light, Some(true)),
        Some(false)
    );
    assert_eq!(
        resolved_system_prefers_dark(PortalColorSchemePreference::Default, Some(true)),
        Some(true)
    );
    assert_eq!(
        resolved_system_prefers_dark(PortalColorSchemePreference::Unknown, Some(false)),
        Some(false)
    );
}

#[test]
fn preferences_of_the_desktop_are_followed() {
    assert_eq!(gnome_prefers_dark_from_raw("prefer-dark"), Some(true));
    assert_eq!(gnome_prefers_dark_from_raw("default"), Some(false));
    assert_eq!(gnome_prefers_dark_from_raw("sepia"), None);
    assert_eq!(
        portal_setting_changed_preference("org.freedesktop.appearance", "color-scheme", Some(1)),
        Some(PortalColorSchemePreference::Dark)
    );
    assert_eq!(
        portal_setting_changed_preference("org.freedesktop.appearance", "accent-color", Some(1)),
        None
    );
    assert_eq!(
        portal_setting_changed_preference("org.freedesktop.appearance", "color-scheme", Some(9)),
        None
    );
    let mut preference = SystemPreference {
        portal: PortalColorSchemePreference::Unknown,
        system_prefers_dark: Some(true),
    };
    assert!(!preference
        .sync_portal_color_scheme_preference_change(PortalColorSchemePreference::Dark, Some(false)));
    assert!(preference
        .sync_portal_color_scheme_preference_change(PortalColorSchemePreference::Default, Some(false)));
    assert_eq!(preference.system_prefers_dark, Some(false));
    assert!(!preference.sync_system_prefers_dark_change(Some(false)));
    assert!(preference.sync_system_prefers_dark_change(None));
    assert_eq!(adw_color_scheme_for(ColorScheme::Light), WindowScheme::ForceLight);
}

#[test]
fn ghostty_prefers_dark_uses_system_preference_when_requested() {
    assert!(ghostty_prefers_dark(ColorScheme::System, Some(true), false));
    assert!(!ghostty_prefers_dark(ColorScheme::System, Some(false), true));
    assert!(ghostty_prefers_dark(ColorScheme::System, None, true));
}

#[test]
fn ghostty_prefers_dark_honors_explicit_overrides() {
    assert!(ghostty_prefers_dark(ColorScheme::Dark, Some(false), false));
    assert!(!ghostty_prefers_dark(ColorScheme::Light, Some(true), true));
}

#[test]
fn settings_that_cannot_be_saved_are_taken_back() {
    let previous = AppConfig::default();
    let mut updated = previous;
    updated.appearance.ui_scale = UiScale::new(1.5f32.to_bits()).unwrap();
    assert_eq!(
        config_changed(&previous, &updated),
        vec![
            ConfigEffect::ApplyAppearance(updated.appearance),
            ConfigEffect::ReloadStyle(updated)
        ]
    );
    let saved = config_saved(&previous, &updated, &Ok(()));
    assert_eq!(saved.config, updated);
    assert!(saved.effects.is_empty() && saved.error.is_none());
    let failed = config_saved(&previous, &updated, &Err("full".to_string()));
    assert_eq!(failed.config, previous);
    assert_eq!(
        failed.effects,
        vec![
            ConfigEffect::ApplyAppearance(previous.appearance),
            ConfigEffect::ReloadStyle(previous)
        ]
    );
    assert_eq!(failed.error.as_deref(), Some("Failed to save Limux settings: full"));
    assert_eq!(save_error_detail("full"), "Failed to save Limux settings: full");
    assert_eq!(config_with_font_size(&previous, Some(7)).font_size, Some(7));
}

#[test]
fn workspace_notification_message_prefers_title_and_body() {
    assert_eq!(
        workspace_notification_message("Codex", "Turn complete"),
        "Codex: Turn complete"
    );
    assert_eq!(workspace_notification_message("Codex", ""), "Codex");
    assert_eq!(
        workspace_notification_message("", "Turn complete"),
        "Turn complete"
    );
    assert_eq!(
        workspace_notification_message("  ", "  "),
        "Process needs attention"
    );
}

#[test]
fn desktop_notifications_only_fire_for_background_workspaces() {
    assert!(should_emit_desktop_notification(true, false, false, false));
    assert!(should_emit_desktop_notification(true, true, false, false));
    assert!(should_emit_desktop_notification(true, true, true, false));
    assert!(!should_emit_desktop_notification(
        false, false, false, false
    ));
    assert!(!should_emit_desktop_notification(true, true, true, true));
}

#[test]
fn workspace_badge_stays_unread_while_any_tab_is_unread() {
    assert!(has_unread(false, true));
    assert!(has_unread(true, false));
    assert!(!has_unread(false, false));
    assert_eq!(workspace_unread_visual(true, true).dot_class, "limux-notify-dot");
    assert!(!workspace_unread_visual(true, true).label_visible);
    assert!(workspace_unread_visual(false, false).clear_label);
}

#[test]
fn what_is_missed_is_marked_and_notified() {
    let mut list = workspaces(&[("a", false), ("b", false)], 0);
    let target = DesktopNotificationTarget {
        workspace_id: "b".to_string(),
        pane_id: Some(4),
        tab_id: Some("t".to_string()),
    };
    let notifications = AppConfig::default().notifications;
    let plan =
        mark_workspace_unread_with_message(&list, "b", "done", true, &target, true, notifications)
            .unwrap();
    assert!(plan.unread);
    assert_eq!(plan.tab, Some((4, "t".to_string())));
    let request = plan.request.unwrap();
    assert_eq!(request.summary, "name of b");
    assert_eq!(request.body, "done");
    let seen =
        mark_workspace_unread_with_message(&list, "a", "done", true, &target, true, notifications)
            .unwrap();
    assert!(!seen.unread && seen.request.is_none() && seen.tab.is_none());
    assert!(mark_workspace_unread_with_message(
        &list, "x", "done", true, &target, true, notifications
    )
    .is_none());

    assert!(mark_workspace(&mut list, "b", true));
    assert!(!list.list[1].unread);
    assert!(mark_workspace(&mut list, "b", false));
    assert!(list.list[1].unread);
    assert!(!clear_visible_tab_unread(&mut list, "b", false));
    assert!(clear_visible_tab_unread(&mut list, "b", true));
    assert!(!list.list[1].unread);
    assert_eq!(combine_body("sub", "body"), "sub \u{2014} body");
    assert_eq!(combine_body("", "body"), "body");
    assert_eq!(combine_body("sub", ""), "sub");
}

#[test]
fn a_tab_is_found_in_its_workspace_or_the_only_other() {
    let unique = |pane, tab: &str| TabTargetResolution::Unique(pane, tab.to_string());
    let none = || TabTargetResolution::NotFound;
    let found = |pane, tab: &str| Some((pane, tab.to_string()));
    assert_eq!(
        resolve_notification_tab_target(0, &vec![unique(1, "t"), unique(2, "t")]),
        (0, found(1, "t"))
    );
    assert_eq!(
        resolve_notification_tab_target(0, &vec![none(), none(), unique(2, "t")]),
        (2, found(2, "t"))
    );
    assert_eq!(
        resolve_notification_tab_target(1, &vec![unique(1, "t"), none(), unique(2, "t")]),
        (1, None)
    );
    assert_eq!(
        resolve_notification_tab_target(1, &vec![unique(1, "t"), none(), TabTargetResolution::Ambiguous]),
        (1, None)
    );
    assert_eq!(
        resolve_notification_tab_target(0, &vec![TabTargetResolution::Ambiguous, unique(2, "t")]),
        (0, None)
    );
    assert_eq!(resolve_notification_tab_target(1, &vec![none(), none()]), (1, None));
}

#[test]
fn a_click_on_a_notification_leads_to_its_target() {
    let target = || DesktopNotificationTarget {
        workspace_id: "b".to_string(),
        pane_id: Some(4),
        tab_id: None,
    };
    let mut routes = NotificationRoutes::new();
    routes.notified(42, target());
    routes.token_received(42, "token-123".to_string());
    routes.token_received(43, "other".to_string());
    assert!(routes.action_invoked(42, "dismiss").is_none());
    let route = routes.action_invoked(42, "default").unwrap();
    assert_eq!(route.activation_token.as_deref(), Some("token-123"));
    assert!(routes.action_invoked(42, "default").is_none());
    routes.notified(7, target());
    routes.closed(7);
    assert!(routes.action_invoked(7, "default").is_none());

    let list = workspaces(&[("a", false), ("b", false)], 0);
    let activation =
        activate_desktop_notification_target(&list, &route.target, &route.activation_token)
            .unwrap();
    assert_eq!(activation.workspace, 1);
    assert!(activation.workspace_changed);
    assert_eq!(activation.token.as_deref(), Some("token-123"));
    let empty = activate_desktop_notification_target(&list, &target(), &Some(String::new()));
    assert_eq!(empty.unwrap().token, None);
    assert_eq!(
        focus_desktop_notification_target(true, true, false, true),
        vec![
            FocusStep::ShowTab,
            FocusStep::RevealPane,
            FocusStep::ActivateTab,
            FocusStep::FocusPane,
            FocusStep::FocusWorkspace
        ]
    );
    assert_eq!(focus_desktop_notification_target(false, false, false, true), Vec::new());
}

#[test]
fn notifications_hint_at_their_sound() {
    let text = |s: &str| HintValue::Text(s.to_string());
    let hints = |sound| desktop_notification_hints("dev.example.App", sound);
    let entry = || ("desktop-entry", text("dev.example.App"));
    assert_eq!(hints(NotificationSound::Default), vec![entry()]);
    assert_eq!(
        hints(NotificationSound::Silent),
        vec![entry(), ("suppress-sound", HintValue::Flag(true))]
    );
    assert_eq!(
        hints(NotificationSound::Alert),
        vec![
            entry(),
            ("sound-name", text("dialog-warning")),
            ("x-canonical-sound-name", text("dialog-warning"))
        ]
    );
}

#[test]
fn shortcut_dispatch_propagation_stops_only_when_window_claims_shortcut() {
    assert_eq!(shortcut_dispatch_propagation(true), Propagation::Stop);
    assert_eq!(shortcut_dispatch_propagation(false), Propagation::Proceed);
}

#[test]
fn shortcut_blocked_by_editable_only_bypasses_non_global_shortcuts() {
    assert!(shortcut_blocked_by_editable(
        ShortcutCommand::SurfaceFind,
        EditableCapturePolicy::BypassInEditable,
        EditableCaptureContext {
            gtk_editable: true,
            ..EditableCaptureContext::default()
        }
    ));
    assert!(!shortcut_blocked_by_editable(
        ShortcutCommand::SurfaceFind,
        EditableCapturePolicy::AlwaysCapture,
        EditableCaptureContext {
            gtk_editable: true,
            ..EditableCaptureContext::default()
        }
    ));
    assert!(!shortcut_blocked_by_editable(
        ShortcutCommand::SurfaceFind,
        EditableCapturePolicy::BypassInEditable,
        EditableCaptureContext::default()
    ));
}

#[test]
fn shortcut_blocked_by_editable_blocks_dom_editable_browser_content() {
    assert!(shortcut_blocked_by_editable(
        ShortcutCommand::BrowserReload,
        EditableCapturePolicy::BypassInEditable,
        EditableCaptureContext {
            browser_dom_editable: true,
            ..EditableCaptureContext::default()
        }
    ));
}

#[test]
fn browser_find_navigation_shortcuts_are_allowed_while_find_ui_is_active() {
    let context = EditableCaptureContext {
        gtk_editable: true,
        browser_find_active: true,
        ..EditableCaptureContext::default()
    };

    assert!(!shortcut_blocked_by_editable(
        ShortcutCommand::SurfaceFindNext,
        EditableCapturePolicy::BypassInEditable,
        context
    ));
    assert!(!shortcut_blocked_by_editable(
        ShortcutCommand::SurfaceFindPrevious,
        EditableCapturePolicy::BypassInEditable,
        context
    ));
    assert!(!shortcut_blocked_by_editable(
        ShortcutCommand::SurfaceFindHide,
        EditableCapturePolicy::BypassInEditable,
        context
    ));
    assert!(shortcut_blocked_by_editable(
        ShortcutCommand::SurfaceFind,
        EditableCapturePolicy::BypassInEditable,
        context
    ));
}

#[test]
fn browser_find_active_exception_is_limited_to_navigation_shortcuts() {
    assert!(shortcut_allowed_while_browser_find_active(
        ShortcutCommand::SurfaceFindNext
    ));
    assert!(shortcut_allowed_while_browser_find_active(
        ShortcutCommand::SurfaceFindPrevious
    ));
    assert!(shortcut_allowed_while_browser_find_active(
        ShortcutCommand::SurfaceFindHide
    ));
    assert!(!shortcut_allowed_while_browser_find_active(
        ShortcutCommand::SurfaceFind
    ));
}

#[test]
fn open_browser_in_split_does_not_require_an_existing_browser_target() {
    assert!(!browser_command_requires_existing_target(
        ShortcutCommand::OpenBrowserInSplit
    ));
    assert!(browser_command_requires_existing_target(
        ShortcutCommand::BrowserReload
    ));
}

#[test]
fn commands_go_where_they_belong() {
    assert_eq!(
        dispatch_shortcut_command(ShortcutCommand::ActivateWorkspace8),
        (ShortcutAction::ActivateWorkspace(7), true)
    );
    assert_eq!(
        dispatch_shortcut_command(ShortcutCommand::PrevWorkspace),
        (ShortcutAction::CycleWorkspace(-1), true)
    );
    assert_eq!(
        dispatch_shortcut_command(ShortcutCommand::SplitDown),
        (ShortcutAction::SplitFocused(Orientation::Vertical), true)
    );
    assert_eq!(
        dispatch_shortcut_command(ShortcutCommand::NewInstance),
        (ShortcutAction::SpawnInstance, false)
    );
    assert_eq!(
        dispatch_terminal_command(true, ShortcutCommand::TerminalPaste),
        Some(TerminalRequest::Paste)
    );
    assert_eq!(dispatch_terminal_command(false, ShortcutCommand::TerminalPaste), None);
    assert_eq!(dispatch_terminal_command(true, ShortcutCommand::BrowserBack), None);
    assert_eq!(
        dispatch_browser_command(true, false, ShortcutCommand::OpenBrowserInSplit),
        Some(BrowserRequest::OpenInSplit)
    );
    assert_eq!(dispatch_browser_command(true, false, ShortcutCommand::BrowserBack), None);
    assert_eq!(
        dispatch_browser_command(false, true, ShortcutCommand::SurfaceFindHide),
        Some(BrowserRequest::HideFind)
    );
    assert!(handled(ShortcutCommand::SplitDown, false, false, false));
    assert!(handled(ShortcutCommand::NewInstance, true, false, false));
    assert!(!handled(ShortcutCommand::NewInstance, false, true, true));
    assert!(handled(ShortcutCommand::SurfaceFind, false, false, true));
    assert!(handled(ShortcutCommand::SurfaceFind, false, true, false));
    assert!(!handled(ShortcutCommand::SurfaceFind, true, false, false));
    assert!(!handled(ShortcutCommand::TerminalCopy, false, false, true));
    assert!(!handled(ShortcutCommand::BrowserBack, false, true, false));
    let options = SplitPaneOptions {
        skip_default_tab: false,
        new_pane_first: false,
        persist: true,
    };
    assert_eq!(
        split_for_command(ShortcutCommand::SplitDown),
        Some(SplitRequest { orientation: Orientation::Vertical, options })
    );
    assert_eq!(
        split_for_command(ShortcutCommand::OpenBrowserInSplit),
        Some(SplitRequest { orientation: Orientation::Horizontal, options })
    );
    assert_eq!(
        split_for_command(ShortcutCommand::SplitRight),
        split_for_command(ShortcutCommand::OpenBrowserInSplit)
    );
    assert_eq!(split_for_command(ShortcutCommand::NewTerminal), None);
    assert_eq!(
        new_browser_address(true, Some("https://a".to_string())).as_deref(),
        Some("https://a")
    );
    assert_eq!(new_browser_address(false, Some("https://a".to_string())), None);
    assert_eq!(binding_action(TerminalRequest::ClearScreen), Some("clear_screen"));
    assert_eq!(binding_action(TerminalRequest::Paste), Some("paste_from_clipboard"));
    assert_eq!(binding_action(TerminalRequest::CopySelection), None);
    assert_eq!(
        font_size_step(TerminalRequest::IncreaseFontSize).map(f32::from_bits),
        Some(1.0)
    );
    assert_eq!(
        font_size_step(TerminalRequest::DecreaseFontSize).map(f32::from_bits),
        Some(-1.0)
    );
    assert_eq!(font_size_step(TerminalRequest::ResetFontSize), None);
    assert_eq!(action_scope("win.split-right"), Some(ActionScope::Window));
    assert_eq!(action_scope("app.quit"), Some(ActionScope::Application));
    assert_eq!(action_scope("quit"), None);
}

#[test]
fn keys_are_captured_unless_something_is_typed_into() {
    let matched = Some(MatchedShortcut {
        command: ShortcutCommand::SurfaceFind,
        editable_capture_policy: EditableCapturePolicy::BypassInEditable,
    });
    let chain = vec![
        FocusLink { listening: false, editable: false },
        FocusLink { listening: false, editable: true },
    ];
    assert!(focused_widget_is_editable(&chain));
    assert!(!focused_widget_is_listening_for_keybind_capture(&chain));
    let typing = focused_editable_capture_context(true, None);
    let reading = focused_editable_capture_context(
        false,
        Some(FocusedBrowser { page_editable: false, find_active: true }),
    );
    assert_eq!(captured_command(false, matched, typing), None);
    assert_eq!(captured_command(false, matched, reading), Some(ShortcutCommand::SurfaceFind));
    assert_eq!(captured_command(true, matched, reading), None);
    assert_eq!(captured_command(false, None, reading), None);
}

#[test]
fn failing_to_start_again_is_reported() {
    assert_eq!(spawn_new_instance(&SpawnOutcome::Started), None);
    assert_eq!(
        spawn_new_instance(&SpawnOutcome::NotStarted("denied".to_string())).as_deref(),
        Some("Failed to launch a new Limux instance: denied")
    );
    assert_eq!(
        spawn_new_instance(&SpawnOutcome::NoExecutable("gone".to_string())).as_deref(),
        Some("Failed to resolve the current Limux executable: gone")
    );
}

#[test]
fn workspace_drop_layout_path_prefers_deterministic_startmost_leaf() {
    let pane = |dir: &str| Box::new(LayoutNodeState::Pane(PaneState::Fallback(Some(dir.to_string()))));
    let layout = LayoutNodeState::Split {
        orientation: Orientation::Horizontal,
        ratio: 0.5f64.to_bits(),
        start: Box::new(LayoutNodeState::Split {
            orientation: Orientation::Vertical,
            ratio: 0.5f64.to_bits(),
            start: pane("/a"),
            end: pane("/b"),
        }),
        end: pane("/c"),
    };

    assert_eq!(workspace_drop_layout_path(&layout), vec![true, true]);
}

#[test]
fn next_active_workspace_index_preserves_current_active_workspace() {
    let remaining = strings(&["source-b", "destination", "other"]);
    assert_eq!(
        next_active_workspace_index(&remaining, Some("destination"), 0),
        1
    );
}

#[test]
fn next_active_workspace_index_falls_back_to_removed_slot_when_active_is_gone() {
    let remaining = strings(&["left", "right"]);
    assert_eq!(next_active_workspace_index(&remaining, Some("gone"), 1), 1);
    assert_eq!(next_active_workspace_index(&remaining, None, 9), 1);
    assert_eq!(next_active_workspace_index(&Vec::new(), Some("gone"), 9), 0);
}

#[test]
fn tab_drag_workspace_seed_uses_terminal_cwd_for_folder_path() {
    let seed = tab_drag_workspace_seed(
        &WorkspaceSeedSource {
            workspace_cwd: Some("/workspace".to_string()),
            workspace_folder_path: Some("/workspace".to_string()),
        },
        "Project Shell",
        &Some("/project".to_string()),
    );

    assert_eq!(seed.name, "Project Shell");
    assert_eq!(seed.cwd.as_deref(), Some("/project"));
    assert_eq!(seed.folder_path.as_deref(), Some("/project"));
}

#[test]
fn tab_drag_workspace_seed_uses_workspace_directory_for_non_terminal_tab() {
    let seed = tab_drag_workspace_seed(
        &WorkspaceSeedSource {
            workspace_cwd: Some("/workspace-cwd".to_string()),
            workspace_folder_path: Some("/workspace-folder".to_string()),
        },
        "Browser",
        &None,
    );

    assert_eq!(seed.name, "Browser");
    assert_eq!(seed.cwd.as_deref(), Some("/workspace-folder"));
    assert_eq!(seed.folder_path.as_deref(), Some("/workspace-folder"));
}

#[test]
fn blank_seeds_fall_back() {
    let seed = tab_drag_workspace_seed(
        &WorkspaceSeedSource {
            workspace_cwd: Some("/cwd".to_string()),
            workspace_folder_path: Some(" ".to_string()),
        },
        " \t",
        &Some("  ".to_string()),
    );
    assert_eq!(seed.name, "Workspace");
    assert_eq!(seed.cwd.as_deref(), Some("  "));
    assert_eq!(seed.folder_path, None);
}

#[test]
fn dragged_things_are_told_apart() {
    assert_eq!(
        parse_dragged_tab("12:tab:x"),
        Some(DraggedTab { pane_id: 12, tab_id: "tab:x".to_string() })
    );
    assert_eq!(parse_dragged_tab("x:tab"), None);
    assert_eq!(parse_dragged_tab("12"), None);
    assert_eq!(
        row_drop("ws-1", "ws-2", true),
        RowDrop::Reorder { source_id: "ws-1".to_string(), below: true }
    );
    assert_eq!(row_drop("ws-2", "ws-2", true), RowDrop::Nothing);
    assert_eq!(row_drop("x:y", "ws-2", true), RowDrop::Nothing);
    assert_eq!(
        button_drop("3:t"),
        ButtonDrop::OpenTab(DraggedTab { pane_id: 3, tab_id: "t".to_string() })
    );
    assert_eq!(button_drop("ws-1"), ButtonDrop::CloseWorkspace("ws-1".to_string()));
    assert_eq!(button_hover_class(true), "limux-tab-drop-target");
    assert_eq!(drop_highlight(None, "a", true), DropHighlight::Tab);
    assert_eq!(drop_highlight(Some("a"), "a", true), DropHighlight::Nothing);
    assert_eq!(drop_highlight(Some("b"), "a", false), DropHighlight::Below);
    assert_eq!(drop_highlight_class(DropHighlight::Above), Some("limux-drop-above"));

    let mut hover = RowHover::new();
    assert!(hover.motion());
    assert!(!hover.motion());
    assert!(hover.dropped());
    assert!(!hover.timer_fired());
    assert!(hover.motion());
    assert!(hover.timer_fired());
    assert!(!hover.leave());
}

#[test]
fn a_renaming_ends_once() {
    let mut list = workspaces(&[("a", false)], 0);
    let mut rename = InlineRename::new();
    assert_eq!(
        rename.commit(&mut list, "a", "  New \n"),
        RenameEnd::Rename("New".to_string())
    );
    assert_eq!(list.list[0].name, "New");
    assert_eq!(rename.commit(&mut list, "a", "Other"), RenameEnd::Nothing);
    assert_eq!(list.list[0].name, "New");
    assert_eq!(InlineRename::new().commit(&mut list, "a", "   "), RenameEnd::Dismiss);
}

#[test]
fn workspace_path_visibility_requires_path_and_enabled_setting() {
    assert!(workspace_path_visible(Some("/workspace"), true));
    assert!(!workspace_path_visible(Some("/workspace"), false));
    assert!(!workspace_path_visible(None, true));
}

#[test]
fn rows_abbreviate_paths() {
    assert_eq!(abbreviate_path("/home/me/src", Some("/home/me")), "~/src");
    assert_eq!(abbreviate_path("/home/me", Some("/home/me")), "~");
    assert_eq!(abbreviate_path("/home/meow", Some("/home/me")), "/home/meow");
    assert_eq!(abbreviate_path("/home/tester2/x", Some("/home/tester")), "/home/tester2/x");
    assert_eq!(abbreviate_path("/home/me/src", Some("/home/me/")), "~/src");
    assert_eq!(abbreviate_path("/home/me/src", Some("/home/me//")), "~/src");
    assert_eq!(abbreviate_path("/home/me", Some("/home/me/")), "~");
    assert_eq!(abbreviate_path("/home/me/", Some("/home/me/")), "~");
    assert_eq!(abbreviate_path("/home/me/", Some("/home/me")), "~/");
    assert_eq!(abbreviate_path("/home/meow", Some("/home/me/")), "/home/meow");
    assert_eq!(abbreviate_path("/srv", Some("/")), "~/srv");
    assert_eq!(abbreviate_path("/", Some("/")), "~");
    assert_eq!(abbreviate_path("", Some("/")), "");
    assert_eq!(abbreviate_path("srv", Some("")), "srv");
    assert_eq!(default_folder(Some("/home/me"), Some("/tmp")), "/home/me");
    assert_eq!(default_folder(None, Some("/tmp")), "/tmp");
    assert_eq!(default_folder(None, None), "/");
    assert_eq!(abbreviate_path("/srv", Some("/home/me")), "/srv");
    assert_eq!(abbreviate_path("/srv", None), "/srv");
    let row = build_sidebar_row("w", Some("/home/me"), false, Some("/home/me"));
    assert_eq!(row.path_label.as_deref(), Some("~"));
    assert_eq!(row.path_tooltip.as_deref(), Some("/home/me"));
    assert!(!row.path_visible);
    assert_eq!(favorite_symbol(true), "\u{2605}");
    assert_eq!(favorite_class(true), Some("limux-ws-star-btn-active"));
    assert_eq!(favorite_class(false), None);
}

#[test]
fn workspace_folder_path_input_expands_home_and_relative_paths() {
    let home = b"/home/tester".as_slice();
    let current = b"/tmp/current".as_slice();

    assert_eq!(
        workspace_folder_path_from_input("~/project", Some(home), Some(current)).unwrap(),
        b"/home/tester/project"
    );
    assert_eq!(
        workspace_folder_path_from_input("relative", Some(home), Some(current)).unwrap(),
        b"/tmp/current/relative"
    );
}

#[test]
fn workspace_folder_paths_agree_with_the_standard_library() {
    let home = "/home/tester";
    let current = "/tmp/current/";
    for input in ["~", "~/", "~/a/b", "~//etc", "/abs/../x", "rel/./y", "~x", " spaced ", "."] {
        let trimmed = input.trim();
        let expanded = if trimmed == "~" {
            std::path::PathBuf::from(home)
        } else if let Some(rest) = trimmed.strip_prefix("~/") {
            std::path::Path::new(home).join(rest)
        } else {
            std::path::PathBuf::from(trimmed)
        };
        let expected = if expanded.is_absolute() {
            expanded
        } else {
            std::path::Path::new(current).join(expanded)
        };
        let found = workspace_folder_path_from_input(
            input,
            Some(home.as_bytes()),
            Some(current.as_bytes()),
        )
        .unwrap();
        assert_eq!(found, expected.to_str().unwrap().as_bytes(), "{input}");
    }
    assert_eq!(
        workspace_folder_path_from_input("~", None, None).unwrap_err(),
        "Home directory is unavailable"
    );
    assert_eq!(
        workspace_folder_path_from_input("x", None, None).unwrap_err(),
        "Current directory is unavailable"
    );
}

#[test]
fn workspace_folder_path_input_rejects_empty_value() {
    assert_eq!(
        workspace_folder_path_from_input("  ", None, None).unwrap_err(),
        "Enter a folder path"
    );
}

#[test]
fn workspace_folder_validation_accepts_existing_directory() {
    let path = workspace_folder_path_from_input("/tmp/some-dir", None, None).unwrap();
    let selection =
        validate_workspace_folder_input_with_dirs(&path, &FolderCheck::Folder).unwrap();

    assert_eq!(selection.path_text, "/tmp/some-dir");
    assert_eq!(selection.name, "some-dir");
    let root = validate_workspace_folder_input_with_dirs(b"/", &FolderCheck::Folder).unwrap();
    assert_eq!((root.name.as_str(), root.path_text.as_str()), ("/", "/"));
    let odd = validate_workspace_folder_input_with_dirs(b"/a/\xffb/", &FolderCheck::Folder).unwrap();
    assert_eq!((odd.name.as_str(), odd.path_text.as_str()), ("\u{fffd}b", "/a/\u{fffd}b/"));
    let given = validate_workspace_folder("/a", Some(""), &FolderCheck::Folder).unwrap();
    assert_eq!(given.name, "/a");
}

#[test]
fn workspace_folder_validation_rejects_files() {
    let error =
        validate_workspace_folder_input_with_dirs(b"/tmp/not-a-folder", &FolderCheck::NotAFolder)
            .unwrap_err();

    assert!(error.ends_with(" is not a folder"));
    assert_eq!(
        validate_workspace_folder_input_with_dirs(
            b"/x",
            &FolderCheck::Unavailable("gone".to_string())
        )
        .unwrap_err(),
        "Cannot open /x: gone"
    );
    assert!(is_workspace_picker_cancel(PickerFailure::Dismissed));
    assert!(!is_workspace_picker_cancel(PickerFailure::Other));
    assert_eq!(picker_failure_message("x"), "Folder picker failed: x");
}

#[test]
fn find_leaf_pane_descends_into_non_pane_boxes() {
    let make_pane = |id: u64| WidgetTree::Pane {
        id,
        children: vec![WidgetTree::Box {
            id: id + 1,
            children: Vec::new(),
        }],
    };

    // A plain Box wrapping a single child simulates a SplitTreeContainer bin.
    let bin = WidgetTree::Box {
        id: 1,
        children: vec![make_pane(10)],
    };
    assert_eq!(
        bin.find_leaf_pane(Orientation::Horizontal, true),
        10,
        "find_leaf_pane should descend through a non-pane Box"
    );

    // A Box that is a pane widget should be returned as-is.
    let pane = make_pane(20);
    assert_eq!(
        pane.find_leaf_pane(Orientation::Horizontal, true),
        20,
        "find_leaf_pane should treat a pane Box as a leaf"
    );

    // A Paned should descend to its actual leaf.
    let paned = WidgetTree::Split {
        id: 2,
        orientation: Orientation::Horizontal,
        start: Some(Box::new(make_pane(30))),
        end: Some(Box::new(make_pane(40))),
    };
    assert_eq!(
        paned.find_leaf_pane(Orientation::Horizontal, true),
        30,
        "find_leaf_pane should descend through a Paned to its leaf"
    );
    assert_eq!(paned.find_leaf_pane(Orientation::Horizontal, false), 40);
    assert_eq!(paned.find_leaf_pane(Orientation::Vertical, false), 30);
    assert_eq!(paned.collect_leaf_panes(), vec![30, 40]);
    assert_eq!(paned.first_leaf_pane(), (30, true));
}

#[test]
fn widgets_are_searched_for_panes_and_areas() {
    let area = |id| WidgetTree::Area { id };
    let pane = WidgetTree::Pane {
        id: 5,
        children: vec![
            WidgetTree::Box { id: 6, children: Vec::new() },
            WidgetTree::Stack { id: 7, visible: Some(1), children: vec![area(8), area(9)] },
        ],
    };
    assert_eq!(pane.find_gl_area(), Some(9));
    assert_eq!(focus_workspace_entrypoint(&pane, true), FocusEntry::Area(9));
    let root = WidgetTree::Box {
        id: 1,
        children: vec![
            WidgetTree::Other { id: 2, children: Vec::new() },
            WidgetTree::Stack { id: 3, visible: None, children: vec![pane] },
        ],
    };
    assert_eq!(root.first_leaf_pane(), (5, true));
    assert_eq!(root.collect_leaf_panes(), Vec::<u64>::new());
    assert_eq!(root.find_gl_area(), None);
    let empty = WidgetTree::Split {
        id: 4,
        orientation: Orientation::Vertical,
        start: None,
        end: None,
    };
    assert_eq!(empty.first_leaf_pane(), (4, false));
    assert_eq!(empty.find_leaf_pane(Orientation::Vertical, true), 4);
    assert_eq!(focus_workspace_entrypoint(&empty, true), FocusEntry::Pane(4));
    assert_eq!(focus_workspace_entrypoint(&empty, false), FocusEntry::Within(4));
}

#[test]
fn empty_panes_are_kept_or_removed() {
    let mut config = AppConfig::default();
    assert_eq!(
        on_empty_pane(&config, Some(true), PaneEmptyReason::ClosedLastTerminal),
        EmptyPane::Remove { save: true }
    );
    config.workspace.keep_open_after_last_terminal_closes = true;
    assert_eq!(
        on_empty_pane(&config, Some(true), PaneEmptyReason::ClosedLastTerminal),
        EmptyPane::Keep
    );
    assert_eq!(
        on_empty_pane(&config, None, PaneEmptyReason::MovedLastTabOut),
        EmptyPane::Remove { save: false }
    );
    assert_eq!(remove_pane(Some(true)), PaneRemoval::CloseWorkspace);
    assert_eq!(remove_pane(None), PaneRemoval::Nothing);
    assert_eq!(remove_pane(Some(false)), PaneRemoval::RemoveFromTree);
    assert_eq!(
        pane_removed(false, true),
        PaneRemoved { retire: false, sync_unread: false, save_session: false }
    );
    assert_eq!(
        pane_removed(true, false),
        PaneRemoved { retire: true, sync_unread: true, save_session: false }
    );
    assert!(pane_removed(true, true).save_session);
    assert!(close_focused_tab(true, 1, &config));
    assert!(!close_focused_tab(true, 1, &AppConfig::default()));
    assert!(close_focused_tab(true, 2, &AppConfig::default()));
    let options = SplitPaneOptions {
        skip_default_tab: false,
        new_pane_first: false,
        persist: true,
    };
    assert_eq!(split_pane(true, true, true, options), (true, true));
    assert_eq!(split_pane(true, false, true, options), (false, false));
    assert!(!split_with_tab(true, true).unwrap().persist);
    assert_eq!(split_with_tab(false, true), None);
    assert!(save_after_split_with_tab(true, true));
    assert!(!save_after_split_with_tab(true, false));
    assert!(!save_after_split_with_tab(false, true));
    let list = workspaces(&[("a", false), ("b", false)], 1);
    assert!(is_pane_visible(true, &list, "b", true));
    assert!(!is_pane_visible(true, &list, "a", true));
}

#[test]
fn kept_workspaces_come_back() {
    let id = new_workspace_id();
    assert_eq!(id.len(), 36);
    assert_ne!(id, new_workspace_id());
    assert!(uuid::Uuid::parse_str(&id).is_ok());
    assert_eq!(restored_workspace_id(&Some(id.clone())), id);
    assert_ne!(restored_workspace_id(&Some("not-a-uuid".to_string())), "not-a-uuid");

    let mut original = workspace(&id, true);
    original.cwd = Some("/cwd".to_string());
    original.unread = true;
    let kept = snapshot_workspace(&original, &SplitNode::Leaf { pane: 3 }, &Vec::new());
    assert_eq!(
        kept.layout,
        LayoutNodeState::Pane(PaneState::Fallback(Some("/cwd".to_string())))
    );
    let restored = add_workspace_from_state(&kept);
    original.unread = false;
    assert_eq!(restored, original);
    assert_eq!(stack_name("x"), "ws-x");
    let opened = workspace_on_folder("src", "/home/me/src");
    assert_eq!(opened.folder_path.as_deref(), Some("/home/me/src"));
    assert_eq!(opened.id, None);
    assert_eq!(add_workspace_from_state(&opened).name, "src");
}

#[test]
fn the_sidebar_opens_to_the_width_it_was_closed_with() {
    let mut sidebar = Sidebar::new();
    let close = sidebar.toggle_sidebar(300);
    assert!(close.collapse && !close.pause_previous);
    assert_eq!((close.from, close.to), (300, 0));
    let open = sidebar.toggle_sidebar(7);
    assert!(!open.collapse && open.pause_previous);
    assert_eq!((open.from, open.to), (0, 300));
    assert_eq!(sidebar.animation_done(close.epoch, true), AnimationEnd::Stale);
    assert_eq!(sidebar.animation_done(open.epoch, false), AnimationEnd::Save);
    assert!(!sidebar.animating);

    assert_eq!(sidebar.resize(300, (-12.4f64).to_bits(), 180), 288);
    assert_eq!(sidebar.resize(300, (-500.0f64).to_bits(), 180), 180);
    sidebar.resize_done(260);
    assert_eq!(sidebar.expanded_width, 260);
    assert_eq!(
        sidebar.apply_sidebar_state_immediately(SidebarState { visible: true, width: 10 }),
        SIDEBAR_WIDTH
    );
    assert_eq!(resize_begin(301.5f64.to_bits(), 300, 180), Some(300));
    assert_eq!(resize_begin(303.5f64.to_bits(), 300, 180), None);
    assert_eq!(resize_begin(299.9f64.to_bits(), 300, 180), None);
    assert_eq!(resize_begin(102.0f64.to_bits(), 100, 180), Some(180));
    assert!(sidebar_is_visible(true, 11));
    assert!(!sidebar_is_visible(true, 10));
    assert!(!top_bar_shown(true, true));
    let mut preferred = false;
    assert_eq!(
        toggle_top_bar(&mut preferred, true),
        TopBarToggled { shown: false, save_session: true }
    );
    assert!(preferred);
    toggle_top_bar(&mut preferred, false);
    assert!(toggle_top_bar(&mut preferred, false).shown);
    assert_eq!(
        snapshot_sidebar(false, 5, 250),
        SidebarState { visible: false, width: 250 }
    );
    assert_eq!(
        snapshot_sidebar(true, 5, 250),
        SidebarState { visible: true, width: 220 }
    );
}

#[test]
fn the_window_is_set_up() {
    assert_eq!(window_title("1.2.3"), "Limux v1.2.3");
    assert!(has_own_header(None));
    assert!(!has_own_header(Some(true)));
    assert_eq!(
        icon_search_paths(Some(b"/opt/bin"), b"/src/icons".to_vec()),
        vec![
            b"/opt/bin/../../rust/limux-host-linux/icons".to_vec(),
            b"/opt/bin/../icons".to_vec(),
            b"/src/icons".to_vec()
        ]
    );
    assert_eq!(icon_search_paths(None, b"/i".to_vec()), vec![b"/i".to_vec()]);
}

#[test]
fn a_session_comes_back_as_it_was() {
    let mut list = Workspaces { list: Vec::new(), active_idx: 0 };
    for name in ["one", "two", "three"] {
        let mut w = workspace(&new_workspace_id(), false);
        w.name = name.to_string();
        list.push(w);
    }
    list.switch_workspace(1);
    list.list[0].unread = true;
    let trees = vec![
        SplitNode::Leaf { pane: 1 },
        SplitNode::Leaf { pane: 2 },
        SplitNode::Leaf { pane: 3 },
    ];
    let sidebar = snapshot_sidebar(true, 300, 300);
    let session = snapshot_session_state(3, &list, &trees, &Vec::new(), false, sidebar);
    assert_eq!(session.version, 3);
    assert!(!session.top_bar_visible);
    assert_eq!(session.sidebar.width, 300);
    let back = apply_loaded_session(&session);
    list.list[0].unread = false;
    assert_eq!(back, list);

    let shorter = AppSessionState {
        active_workspace_index: 7,
        workspaces: vec![workspace_on_folder("a", "/a"), workspace_on_folder("b", "/b")],
        ..session
    };
    let back = apply_loaded_session(&shorter);
    assert_eq!(back.active_idx, 1);
    assert_eq!(back.list[1].name, "b");
    let nothing = AppSessionState { workspaces: Vec::new(), ..shorter };
    let back = apply_loaded_session(&nothing);
    assert!(back.list.is_empty() && back.active_idx == 0);
}

#[test]
fn the_focus_falls_back_to_the_edge() {
    let pane = |id| Box::new(WidgetTree::Pane { id, children: Vec::new() });
    let sibling = WidgetTree::Split {
        id: 1,
        orientation: Orientation::Horizontal,
        start: Some(pane(10)),
        end: Some(pane(20)),
    };
    let current = bounds(200.0, 0.0, 300.0, 100.0);
    let near = Some(bounds(100.0, 0.0, 200.0, 100.0));
    let off = Some(bounds(100.0, 500.0, 200.0, 600.0));
    let focus = |current, list| focus_pane_in_direction(&sibling, current, &list, Direction::Left);
    assert_eq!(focus(Some(current), vec![near, off]), 10);
    assert_eq!(focus(Some(current), vec![off, near]), 20);
    assert_eq!(focus(None, vec![near, off]), 10);
    assert_eq!(focus(Some(current), vec![None, None]), 10);
    assert_eq!(
        focus_pane_in_direction(&sibling, None, &vec![None, None], Direction::Right),
        20
    );
}

#[test]
fn a_workspace_is_opened_for_a_tab() {
    let seed = tab_drag_workspace_seed(
        &WorkspaceSeedSource { workspace_cwd: None, workspace_folder_path: None },
        "Build",
        &Some("/src".to_string()),
    );
    let mut list = workspaces(&[("a", false), ("b", false)], 0);
    let opened = create_workspace_for_tab(&mut list, &seed);
    assert_eq!(opened.previous.as_deref(), Some("a"));
    assert_eq!((list.active_idx, list.list[2].name.as_str()), (2, "Build"));
    assert_eq!(list.list[2].folder_path.as_deref(), Some("/src"));
    assert!(tab_moved(&mut list, &opened, true));
    assert_eq!(list.list.len(), 3);
    assert!(!tab_moved(&mut list, &opened, false));
    assert_eq!(list, workspaces(&[("a", false), ("b", false)], 0));

    let mut empty = workspaces(&[], 0);
    let opened = create_workspace_for_tab(&mut empty, &seed);
    assert_eq!(opened.previous, None);
    tab_moved(&mut empty, &opened, false);
    assert_eq!(empty, workspaces(&[], 0));
}

#[test]
fn a_new_key_counts_once_it_is_read_back() {
    assert_eq!(persist_shortcut_binding(&BindingOutcome::Reloaded(Vec::new())), Ok(()));
    assert_eq!(
        persist_shortcut_binding(&BindingOutcome::Reloaded(vec![
            "one".to_string(),
            "two".to_string(),
            "three".to_string(),
        ])),
        Err("one; two; three".to_string())
    );
    assert_eq!(
        persist_shortcut_binding(&BindingOutcome::Reloaded(vec!["one".to_string()])),
        Err("one".to_string())
    );
    assert_eq!(
        persist_shortcut_binding(&BindingOutcome::NoDirectory),
        Err("config directory unavailable".to_string())
    );
    assert_eq!(
        persist_shortcut_binding(&BindingOutcome::Refused("taken".to_string())),
        Err("taken".to_string())
    );
    assert_eq!(
        persist_shortcut_binding(&BindingOutcome::NotWritten("full".to_string())),
        Err("full".to_string())
    );
}

#[test]
fn a_font_size_counts_once_it_is_saved() {
    let mut config = AppConfig::default();
    let size = 14.0f32.to_bits();
    assert_eq!(
        persist_font_size(&mut config, Some(size), &Err("full".to_string())),
        FontSizeChange::Failed("Failed to save Limux settings: full".to_string())
    );
    assert_eq!(config, AppConfig::default());
    assert_eq!(
        persist_font_size(&mut config, Some(size), &Ok(())),
        FontSizeChange::Broadcast(size)
    );
    assert_eq!(config.font_size, Some(size));
    assert_eq!(persist_font_size(&mut config, None, &Ok(())), FontSizeChange::Reset);
    assert_eq!(
        broadcast_font_size(&FontSizeChange::Broadcast(size), "14").as_deref(),
        Some("set_font_size:14")
    );
    assert_eq!(
        broadcast_font_size(&FontSizeChange::Reset, "14").as_deref(),
        Some("reset_font_size")
    );
    assert_eq!(broadcast_font_size(&FontSizeChange::Failed("full".to_string()), "14"), None);
    assert_eq!(config, AppConfig::default());
}

#[test]
fn a_dragged_workspace_turns_the_button_into_a_trash_can() {
    let mut drag = WorkspaceDrag::new();
    assert_eq!(drag.button.label(), "New Workspace");
    assert!(drag.button.classes().is_empty());
    drag.begin("w1");
    assert_eq!(drag.dragging.as_deref(), Some("w1"));
    assert_eq!(drag.button.label(), "\u{1F5D1}\u{FE0E}");
    drag.button.motion(false);
    assert_eq!(
        drag.button.classes(),
        vec!["limux-sidebar-btn-trash", "limux-sidebar-btn-trash-hover"]
    );
    drag.end();
    assert_eq!(drag, WorkspaceDrag::new());

    let mut button = NewWorkspaceButton::new();
    button.tab_drag_changed(true);
    button.motion(true);
    assert_eq!(button.classes(), vec!["limux-tab-drag-active", "limux-tab-drop-target"]);
    button.leave();
    assert_eq!(button.classes(), vec!["limux-tab-drag-active"]);
    button.motion(true);
    button.dropped();
    button.tab_drag_changed(false);
    assert_eq!(button, NewWorkspaceButton::new());
}

#[test]
fn a_command_without_focus_goes_to_the_first_pane() {
    let list = workspaces(&[("a", false), ("b", false)], 1);
    let pane = |id| Box::new(WidgetTree::Pane { id, children: Vec::new() });
    let root = WidgetTree::Split {
        id: 1,
        orientation: Orientation::Horizontal,
        start: Some(pane(10)),
        end: Some(pane(20)),
    };
    assert_eq!(find_focused_pane(&list, Some(20), &root), Some(("b".to_string(), 20)));
    assert_eq!(find_focused_pane(&list, None, &root), Some(("b".to_string(), 10)));
    assert_eq!(find_focused_pane(&workspaces(&[], 0), Some(20), &root), None);
}

#[test]
fn only_a_drag_of_the_edge_resizes_the_sidebar() {
    let mut sidebar = Sidebar::new();
    let mut resize = SidebarResize::new();
    assert_eq!(resize.update(&mut sidebar, 5.0f64.to_bits(), 180), None);
    assert_eq!(sidebar, Sidebar::new());
    assert!(!resize.begin(10.0f64.to_bits(), 300, 180));
    assert!(!resize.resizing);
    assert!(resize.begin(301.0f64.to_bits(), 300, 180));
    assert_eq!(resize.update(&mut sidebar, (-20.0f64).to_bits(), 180), Some(280));
    assert_eq!(sidebar.expanded_width, 280);
    resize.end(&mut sidebar, 275);
    assert_eq!(sidebar.expanded_width, 275);
    assert_eq!(resize.update(&mut sidebar, 5.0f64.to_bits(), 180), None);
}
