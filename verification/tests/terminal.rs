use limux_host::terminal::action::{
    ghostty_action, ghostty_open_url_to_string, link_preview_position, load_scrollbar_enabled,
    ActionEffect, ActionTarget, TerminalAction,
};
use limux_host::terminal::clipboard::{
    clipboard_completion_text, clipboard_formats_include_image, clipboard_formats_include_text,
    clipboard_has_text, clipboard_read_text, clipboard_write_policy, complete_clipboard_request,
    read_clipboard, write_clipboard_without_context, ClipboardContext, ClipboardKind,
    ClipboardRead, ClipboardWrite, ClipboardWritePolicy,
};
use limux_host::terminal::cursor::{
    gtk_cursor_name_for_ghostty_shape, MouseCursorState, MouseCursorUpdate, MouseShape,
    MouseVisibility,
};
use limux_host::terminal::handle::{
    scroll_to_row_action, set_font_size_action, terminal_search_action, HandleEffect,
    TerminalHandle,
};
use limux_host::terminal::keys::{
    fallback_consumed_mods, fallback_unshifted_codepoint, key_event_text, keycode_for_keyval,
    keyval_unicode_unshifted, needs_shift_translation, send_key, translate_key_event,
    translated_keyval_for_keycode, translation_group, KeyAction, KeyInput, KeyMods, KeycodeEntry, KeyvalMapping, NamedKey,
    SendKeyRefusal,
};
use limux_host::terminal::menu::{
    choose_menu_item, context_menu_items, url_at_position, MenuEffect, MenuItem, ProbeStep,
    TerminalIdentity,
};
use limux_host::terminal::shell::{shell_escape_bytes, shell_escape_joined_bytes};
use limux_host::terminal::surface::{SurfaceIdentityRegistry, SurfaceMap, WakeupSlot};
use limux_host::terminal::widget::{
    dropped_files, ghostty_color_scheme_for_dark_mode, key_after_filter, key_end, key_start,
    load_background_opacity, physical_size_for_allocation, refresh_realized_surface_display,
    refresh_surface_display, surface_config, DisplayStep, KeyEnd, KeyStart, MouseButton, TerminalEffect, TerminalEvent, TerminalScheme, TerminalState,
};

fn strings(items: &[&str]) -> Vec<String> {
    items.iter().map(|s| s.to_string()).collect()
}

#[test]
fn physical_size_matches_logical_allocation_times_scale_factor() {
    assert_eq!(
        physical_size_for_allocation(1280, 720, 1),
        Some((1280, 720, 1))
    );
    assert_eq!(
        physical_size_for_allocation(1280, 720, 2),
        Some((2560, 1440, 2))
    );
    assert_eq!(
        physical_size_for_allocation(640, 480, 3),
        Some((1920, 1440, 3))
    );
}

#[test]
fn physical_size_rejects_invalid_allocation_or_scale() {
    assert_eq!(physical_size_for_allocation(0, 720, 2), None);
    assert_eq!(physical_size_for_allocation(1280, 0, 2), None);
    assert_eq!(physical_size_for_allocation(1280, 720, 0), None);
    assert_eq!(physical_size_for_allocation(-1, 720, 2), None);
    assert_eq!(physical_size_for_allocation(1280, -1, 2), None);
    assert_eq!(physical_size_for_allocation(1280, 720, -1), None);
}

#[test]
fn physical_size_rejects_products_that_are_too_large() {
    assert_eq!(physical_size_for_allocation(i32::MAX, 1, 3), None);
    assert_eq!(
        physical_size_for_allocation(i32::MAX, 1, 2),
        Some((4_294_967_294, 2, 2))
    );
}

#[test]
fn maps_dark_mode_to_ghostty_color_scheme() {
    assert_eq!(
        ghostty_color_scheme_for_dark_mode(true),
        TerminalScheme::Dark
    );
    assert_eq!(
        ghostty_color_scheme_for_dark_mode(false),
        TerminalScheme::Light
    );
}

#[test]
fn maps_ghostty_mouse_shapes_to_gtk_cursor_names() {
    let cases = [
        (MouseShape::Default, "default"),
        (MouseShape::ContextMenu, "context-menu"),
        (MouseShape::Help, "help"),
        (MouseShape::Pointer, "pointer"),
        (MouseShape::Progress, "progress"),
        (MouseShape::Wait, "wait"),
        (MouseShape::Cell, "cell"),
        (MouseShape::Crosshair, "crosshair"),
        (MouseShape::Text, "text"),
        (MouseShape::VerticalText, "vertical-text"),
        (MouseShape::Alias, "alias"),
        (MouseShape::Copy, "copy"),
        (MouseShape::Move, "move"),
        (MouseShape::NoDrop, "no-drop"),
        (MouseShape::NotAllowed, "not-allowed"),
        (MouseShape::Grab, "grab"),
        (MouseShape::Grabbing, "grabbing"),
        (MouseShape::AllScroll, "all-scroll"),
        (MouseShape::ColResize, "col-resize"),
        (MouseShape::RowResize, "row-resize"),
        (MouseShape::NResize, "n-resize"),
        (MouseShape::EResize, "e-resize"),
        (MouseShape::SResize, "s-resize"),
        (MouseShape::WResize, "w-resize"),
        (MouseShape::NeResize, "ne-resize"),
        (MouseShape::NwResize, "nw-resize"),
        (MouseShape::SeResize, "se-resize"),
        (MouseShape::SwResize, "sw-resize"),
        (MouseShape::EwResize, "ew-resize"),
        (MouseShape::NsResize, "ns-resize"),
        (MouseShape::NeswResize, "nesw-resize"),
        (MouseShape::NwseResize, "nwse-resize"),
        (MouseShape::ZoomIn, "zoom-in"),
        (MouseShape::ZoomOut, "zoom-out"),
    ];

    for (shape, expected) in cases {
        assert_eq!(gtk_cursor_name_for_ghostty_shape(shape), expected);
    }
    assert_eq!(
        gtk_cursor_name_for_ghostty_shape(MouseShape::Unknown(i32::MAX)),
        "default"
    );
}

#[test]
fn mouse_visibility_restores_latest_shape_and_treats_unknown_as_visible() {
    let state = MouseCursorState::default()
        .update_shape(MouseShape::Pointer)
        .update_visibility(MouseVisibility::Hidden);
    assert_eq!(state.gtk_cursor_name(), "none");

    let state = state
        .update_shape(MouseShape::Wait)
        .update_visibility(MouseVisibility::Visible);
    assert_eq!(state.gtk_cursor_name(), "wait");

    let state = state.update_visibility(MouseVisibility::Unknown(i32::MAX));
    assert!(state.visible);
    assert_eq!(state.gtk_cursor_name(), "wait");
}

#[test]
fn surface_generation_rejects_queued_cursor_update_after_address_reuse() {
    let mut registry = SurfaceIdentityRegistry::default();
    let surface_key = 0x1234;
    let original = registry.register(surface_key);
    let queued_update = registry.current(surface_key).unwrap();

    registry.unregister(original);
    let replacement = registry.register(surface_key);

    assert_eq!(queued_update.surface_key, replacement.surface_key);
    assert_ne!(queued_update.generation, replacement.generation);
    assert!(!registry.is_current(queued_update));
    assert!(registry.is_current(replacement));
}

#[test]
fn cursor_updates_reach_only_their_surface() {
    let mut registry = SurfaceIdentityRegistry::default();
    let mut surfaces = SurfaceMap::new();
    let stale = registry.register(8);
    surfaces.insert(stale);
    let shape = MouseCursorUpdate::Shape(MouseShape::Grab);
    assert_eq!(surfaces.apply_mouse_cursor_update(stale, shape), Some("grab"));
    let later = registry.register(8);
    surfaces.insert(later);
    assert_eq!(surfaces.apply_mouse_cursor_update(stale, shape), None);
    assert_eq!(surfaces.get(8).unwrap().mouse_cursor.shape, MouseShape::Text);
    assert_eq!(
        surfaces.apply_mouse_cursor_update(
            later,
            MouseCursorUpdate::Visibility(MouseVisibility::Hidden)
        ),
        Some("none")
    );
    registry.unregister(stale);
    assert!(registry.is_current(later));
    assert_eq!(surfaces.remove(8).unwrap().identity, later);
    assert!(!surfaces.surface_is_registered(8));
    assert_eq!(surfaces.remove(8), None);
}

#[test]
fn fallback_unshifted_codepoint_maps_shifted_symbols() {
    assert_eq!(fallback_unshifted_codepoint(Some('!')), '1' as u32);
    assert_eq!(fallback_unshifted_codepoint(Some('+')), '=' as u32);
    assert_eq!(fallback_unshifted_codepoint(Some('_')), '-' as u32);
    assert_eq!(fallback_unshifted_codepoint(Some('A')), 'a' as u32);
}

#[test]
fn fallback_unshifted_codepoint_lowers_letters_of_any_script() {
    assert_eq!(fallback_unshifted_codepoint(Some('\u{c4}')), '\u{e4}' as u32);
    assert_eq!(fallback_unshifted_codepoint(Some('\u{416}')), '\u{436}' as u32);
    assert_eq!(fallback_unshifted_codepoint(Some('\u{130}')), 'i' as u32);
    assert_eq!(fallback_unshifted_codepoint(Some('7')), '7' as u32);
    assert_eq!(fallback_unshifted_codepoint(Some('"')), '\'' as u32);
    assert_eq!(fallback_unshifted_codepoint(Some('|')), '\\' as u32);
    assert_eq!(fallback_unshifted_codepoint(None), 0);
}

#[test]
fn terminal_search_action_formats_queries_for_ghostty() {
    assert_eq!(terminal_search_action(""), "search:");
    assert_eq!(terminal_search_action("needle"), "search:needle");
    assert_eq!(terminal_search_action("two words"), "search:two words");
}

#[test]
fn other_actions_are_formatted() {
    assert_eq!(scroll_to_row_action(0), "scroll_to_row:0");
    assert_eq!(scroll_to_row_action(10_203), "scroll_to_row:10203");
    assert_eq!(set_font_size_action("12.5"), "set_font_size:12.5");
}

#[test]
fn open_url_action_uses_explicit_byte_len() {
    let url = b"https://example.com/path?x=1";

    assert_eq!(
        ghostty_open_url_to_string(&Some(url.to_vec())).as_deref(),
        Some("https://example.com/path?x=1")
    );
}

#[test]
fn open_url_action_rejects_empty_payload() {
    assert_eq!(ghostty_open_url_to_string(&None), None);
    assert_eq!(ghostty_open_url_to_string(&Some(Vec::new())), None);
}

#[test]
fn open_url_action_replaces_what_is_not_valid() {
    assert_eq!(
        ghostty_open_url_to_string(&Some(b"a\xffb".to_vec())).as_deref(),
        Some("a\u{fffd}b")
    );
}

#[test]
fn key_event_text_preserves_printable_chords() {
    let ctrl_shift_h = key_event_text(Some('H'));
    let alt_shift_gt = key_event_text(Some('>'));

    assert_eq!(ctrl_shift_h.as_deref(), Some("H"));
    assert_eq!(alt_shift_gt.as_deref(), Some(">"));
    assert!(key_event_text(Some('\u{8}')).is_none());
}

#[test]
fn send_key_text_is_supplied_for_printables_and_withheld_from_control_keys() {
    for (key, expected) in [('a', "a"), ('A', "A"), ('1', "1"), (' ', " ")] {
        let text = key_event_text(Some(key));
        assert_eq!(
            text.as_deref(),
            Some(expected),
            "printable key must carry text or it is dropped"
        );
    }

    for key in ['\r', '\t', '\u{1b}', '\u{8}'] {
        assert!(
            key_event_text(Some(key)).is_none(),
            "{key:?} must be encoded by ghostty, not written as literal text"
        );
    }

    // Non-textual keys have no unicode at all.
    assert!(key_event_text(None).is_none());
}

#[test]
fn control_characters_are_those_of_unicode() {
    for code in 0..0x3000u32 {
        if let Some(c) = char::from_u32(code) {
            assert_eq!(key_event_text(Some(c)).is_none(), c.is_control(), "{code:#x}");
        }
    }
}

fn mods(shift: bool, ctrl: bool) -> KeyMods {
    KeyMods {
        shift,
        ctrl,
        alt: false,
        super_key: false,
    }
}

#[test]
fn an_injected_key_has_text_on_its_press_only() {
    let key = NamedKey {
        unicode: Some('a'),
        keycode: 38,
        mods: mods(true, false),
        typed: Some('A'),
    };
    let injected = send_key(true, Some(key)).unwrap();
    assert_eq!(injected.text.as_deref(), Some("A"));
    assert_eq!(injected.press.keycode, 38);
    assert_eq!(injected.press.unshifted_codepoint, 'a' as u32);
    assert_eq!(injected.press.consumed_mods, mods(false, false));
    assert_eq!(
        injected.release,
        KeyInput {
            action: KeyAction::Release,
            ..injected.press
        }
    );
    assert_eq!(send_key(false, Some(key)), Err(SendKeyRefusal::NoSurface));
    assert_eq!(send_key(true, None), Err(SendKeyRefusal::UnknownKey));
}

#[test]
fn shift_is_consumed_where_it_changes_the_character() {
    assert_eq!(fallback_consumed_mods(Some('A'), mods(true, true)), mods(true, false));
    assert_eq!(fallback_consumed_mods(Some('a'), mods(true, true)), mods(false, false));
    assert_eq!(fallback_consumed_mods(Some('A'), mods(false, true)), mods(false, false));
    assert_eq!(fallback_consumed_mods(None, mods(true, false)), mods(false, false));

    let event = translate_key_event(
        KeyAction::Press,
        mods(true, true),
        Some('!'),
        10,
        Some('1' as u32),
        Some(mods(true, false)),
    );
    assert_eq!(event.unshifted_codepoint, '1' as u32);
    assert_eq!(event.consumed_mods, mods(true, false));
    assert!(!event.composing);
}

#[test]
fn keymaps_are_asked_for_keys() {
    let entries = vec![
        KeycodeEntry { group: 0, level: 1, unicode: Some('A') },
        KeycodeEntry { group: 1, level: 0, unicode: Some('\u{444}') },
        KeycodeEntry { group: 0, level: 0, unicode: Some('a') },
    ];
    assert_eq!(keyval_unicode_unshifted(Some(&entries), 0), Some('a' as u32));
    assert_eq!(keyval_unicode_unshifted(Some(&entries), 1), Some(0x444));
    assert_eq!(keyval_unicode_unshifted(Some(&entries), 2), None);
    assert_eq!(keyval_unicode_unshifted(None, 0), None);
    let nul = vec![KeycodeEntry { group: 0, level: 0, unicode: Some('\0') }];
    assert_eq!(keyval_unicode_unshifted(Some(&nul), 0), None);

    let mappings = vec![
        KeyvalMapping { keycode: 24, group: 3 },
        KeyvalMapping { keycode: 38, group: 1 },
    ];
    assert_eq!(keycode_for_keyval(Some(&mappings)), 24);
    assert_eq!(keycode_for_keyval(Some(&Vec::new())), 0);
    assert_eq!(keycode_for_keyval(None), 0);
    assert_eq!(translation_group(Some(&mappings), 38), 1);
    assert_eq!(translation_group(Some(&mappings), 99), 3);
    assert_eq!(translation_group(Some(&Vec::new()), 38), 0);
    assert_eq!(translation_group(None, 38), 0);
    assert!(needs_shift_translation(38, mods(true, false)));
    assert!(!needs_shift_translation(0, mods(true, false)));
    assert!(!needs_shift_translation(38, mods(false, true)));
    assert_eq!(translated_keyval_for_keycode(97, 38, mods(true, false), Some(65)), 65);
    assert_eq!(translated_keyval_for_keycode(97, 38, mods(true, false), None), 97);
    assert_eq!(translated_keyval_for_keycode(97, 0, mods(true, false), Some(65)), 97);
    assert_eq!(translated_keyval_for_keycode(97, 38, mods(false, false), Some(65)), 97);
}

#[test]
fn shell_escape_preserves_simple_paths() {
    assert_eq!(
        shell_escape_bytes(b"/home/user/file.txt"),
        b"/home/user/file.txt"
    );
    assert_eq!(shell_escape_bytes(b"/tmp/a-b_c.rs"), b"/tmp/a-b_c.rs");
}

#[test]
fn shell_escape_quotes_paths_with_spaces() {
    assert_eq!(
        shell_escape_bytes(b"/home/user/my file.txt"),
        b"$'/home/user/my file.txt'"
    );
}

#[test]
fn shell_escape_handles_single_quotes() {
    assert_eq!(
        shell_escape_bytes(b"/tmp/it's a file"),
        b"$'/tmp/it\\'s a file'"
    );
}

#[test]
fn shell_escape_preserves_non_utf8_bytes() {
    let path = b"/home/user/\xff\xfefile.txt";
    assert_eq!(
        shell_escape_bytes(path),
        b"$'/home/user/\\xFF\\xFEfile.txt'"
    );
}

#[test]
fn shell_escape_hex_escapes_terminal_control_bytes() {
    let path = b"/tmp/line\nbreak\tand\x03escape\x1b";
    assert_eq!(
        shell_escape_bytes(path),
        b"$'/tmp/line\\nbreak\\tand\\x03escape\\e'"
    );
}

#[test]
fn shell_escape_gives_printable_words_for_every_byte() {
    let inert = b",./_-:@+";
    for byte in 0..=255u8 {
        let word = shell_escape_bytes(&[byte]);
        assert!(!word.is_empty());
        assert!(word.iter().all(|b| (32..=126).contains(b)), "{byte}");
        if byte.is_ascii_alphanumeric() || inert.contains(&byte) {
            assert_eq!(word, vec![byte]);
        }
    }
    assert_eq!(shell_escape_bytes(b""), b"''");
}

#[test]
fn shell_escape_writes_each_byte_as_it_is_read_back() {
    for byte in 0..=255u8 {
        let escaped = match byte {
            7 => "\\a".to_string(),
            8 => "\\b".to_string(),
            9 => "\\t".to_string(),
            10 => "\\n".to_string(),
            11 => "\\v".to_string(),
            12 => "\\f".to_string(),
            13 => "\\r".to_string(),
            27 => "\\e".to_string(),
            39 => "\\'".to_string(),
            92 => "\\\\".to_string(),
            32..=126 => char::from(byte).to_string(),
            _ => format!("\\x{byte:02X}"),
        };
        assert_eq!(
            shell_escape_bytes(&[32, byte, b'0']),
            format!("$' {escaped}0'").as_bytes(),
            "{byte}"
        );
    }
}

#[test]
fn clipboard_formats_include_text_rejects_image_clipboards() {
    assert!(clipboard_formats_include_text(
        true,
        &strings(&["text/plain", "text/plain;charset=utf-8"])
    ));
    assert!(clipboard_formats_include_image(&strings(&[
        "image/png",
        "text/plain"
    ])));
}

#[test]
fn clipboard_has_text_wants_plain_text_and_no_image() {
    assert!(clipboard_has_text(true, &strings(&["TEXT/Plain;Charset=UTF-8"])));
    assert!(!clipboard_has_text(false, &strings(&["text/plain"])));
    assert!(!clipboard_has_text(true, &strings(&["text/html"])));
    assert!(!clipboard_has_text(true, &strings(&["text/plain", "image/png"])));
    assert!(clipboard_has_text(true, &strings(&["text/plain", "IMAGE/png"])));
}

#[test]
fn clipboard_read_text_defaults_to_empty_when_missing() {
    let text = clipboard_read_text(None);

    assert_eq!(text.as_bytes(), b"");
}

#[test]
fn clipboard_read_text_strips_nul_bytes() {
    let text = clipboard_read_text(Some("a\0b\0c"));

    assert_eq!(text.as_bytes(), b"abc");
}

#[test]
fn clipboard_completion_text_replaces_null_with_empty_cstr() {
    assert_eq!(clipboard_completion_text(None), b"");
}

#[test]
fn clipboard_completion_text_keeps_non_null_ptr() {
    assert_eq!(
        clipboard_completion_text(Some(b"clipboard".to_vec())),
        b"clipboard"
    );
}

#[test]
fn clipboard_write_policy_can_disable_selection_to_regular_clipboard() {
    assert_eq!(
        clipboard_write_policy(ClipboardKind::Selection, false),
        ClipboardWritePolicy {
            write_clipboard: false,
            write_primary: true,
            show_toast: false,
        }
    );
    assert_eq!(
        clipboard_write_policy(ClipboardKind::Selection, true),
        ClipboardWritePolicy {
            write_clipboard: true,
            write_primary: true,
            show_toast: true,
        }
    );
    assert_eq!(
        clipboard_write_policy(ClipboardKind::Standard, false),
        ClipboardWritePolicy {
            write_clipboard: true,
            write_primary: true,
            show_toast: true,
        }
    );
}

#[test]
fn a_probe_catches_what_is_copied() {
    let mut registry = SurfaceIdentityRegistry::default();
    let mut surfaces = SurfaceMap::new();
    surfaces.insert(registry.register(5));
    let mut context = ClipboardContext::new();
    context.surface = Some(5);
    context.begin_url_probe();
    assert_eq!(
        context.write(ClipboardKind::Standard, Some(b"https://x"), true, true, &surfaces),
        ClipboardWrite::Probed
    );
    assert_eq!(context.end_url_probe().as_deref(), Some("https://x"));
    match context.write(ClipboardKind::Selection, Some(b"hello"), true, false, &surfaces) {
        ClipboardWrite::Write { text, policy, toast } => {
            assert_eq!(text, "hello");
            assert!(!policy.write_clipboard);
            assert_eq!(toast, None);
        }
        other => panic!("{other:?}"),
    }
    match context.write(ClipboardKind::Standard, Some(b"\xff"), true, false, &surfaces) {
        ClipboardWrite::Write { text, toast, .. } => {
            assert_eq!(text, "");
            assert_eq!(toast, Some(5));
        }
        other => panic!("{other:?}"),
    }
    assert_eq!(
        context.write(ClipboardKind::Standard, None, true, true, &surfaces),
        ClipboardWrite::Nothing
    );
    assert_eq!(
        write_clipboard_without_context(ClipboardKind::Standard, Some(b"x"), false),
        ClipboardWrite::Nothing
    );
}

#[test]
fn clipboard_requests_are_answered_to_live_surfaces() {
    assert_eq!(read_clipboard(None, ClipboardKind::Standard, true), ClipboardRead::Nothing);
    assert_eq!(
        read_clipboard(Some(5), ClipboardKind::Selection, false),
        ClipboardRead::CompleteEmpty(5)
    );
    let mut registry = SurfaceIdentityRegistry::default();
    let mut surfaces = SurfaceMap::new();
    surfaces.insert(registry.register(5));
    assert_eq!(
        complete_clipboard_request(&surfaces, 5, Some(b"x".to_vec())),
        Some(b"x".to_vec())
    );
    assert_eq!(complete_clipboard_request(&surfaces, 6, Some(b"x".to_vec())), None);
}

#[test]
fn shell_escape_joins_multiple_paths_for_terminal_drop() {
    let text = shell_escape_joined_bytes(&vec![
        b"/tmp/plain".to_vec(),
        b"/tmp/space name".to_vec(),
        b"/tmp/it's".to_vec(),
        b"/tmp/\xff\xfe".to_vec(),
        b"/tmp/line\nbreak".to_vec(),
    ])
    .expect("drop payload must be NUL-free");

    assert_eq!(
        text,
        b"/tmp/plain $'/tmp/space name' $'/tmp/it\\'s' $'/tmp/\\xFF\\xFE' $'/tmp/line\\nbreak'"
    );
}

#[test]
fn shell_escape_joined_bytes_rejects_empty_input() {
    assert!(shell_escape_joined_bytes(&Vec::new()).is_none());
}

#[test]
fn dropped_files_need_a_surface_and_a_text() {
    let text = shell_escape_joined_bytes(&vec![b"/tmp/a b".to_vec()]);
    assert_eq!(dropped_files(Some(5), text.clone()), Some((5, b"$'/tmp/a b'".to_vec())));
    assert_eq!(dropped_files(None, text), None);
    assert_eq!(dropped_files(Some(5), shell_escape_joined_bytes(&Vec::new())), None);
}

#[test]
fn a_display_is_refreshed_with_the_size_it_has() {
    assert_eq!(
        refresh_surface_display(5, 800, 600, 2),
        vec![
            DisplayStep::SetContentScale { surface: 5, scale: 2 },
            DisplayStep::SetSize { surface: 5, width: 1600, height: 1200 },
            DisplayStep::Refresh(5),
            DisplayStep::QueueRender,
        ]
    );
    assert_eq!(
        refresh_surface_display(5, 800, 0, 2),
        vec![DisplayStep::Refresh(5), DisplayStep::QueueRender]
    );
    assert_eq!(
        refresh_realized_surface_display(5, Some(true), -1, 600, 2),
        vec![
            DisplayStep::DisplayRealized(5),
            DisplayStep::Refresh(5),
            DisplayStep::QueueRender,
        ]
    );
    for drawable in [None, Some(false)] {
        assert_eq!(
            refresh_realized_surface_display(5, drawable, 800, 600, 1),
            refresh_surface_display(5, 800, 600, 1)
        );
    }
}

#[test]
fn wakeup_idle_slot_coalesces_until_released() {
    let mut slot = WakeupSlot::new();

    assert!(slot.claim_wakeup_idle_slot());
    assert!(!slot.claim_wakeup_idle_slot());

    slot.release_wakeup_idle_slot();

    assert!(slot.claim_wakeup_idle_slot());
}

#[test]
fn actions_lead_to_effects() {
    let mut registry = SurfaceIdentityRegistry::default();
    let mut surfaces = SurfaceMap::new();
    let identity = registry.register(5);
    surfaces.insert(identity);
    let act = |target, action| ghostty_action(&surfaces, &registry, true, target, &action);

    assert_eq!(
        act(ActionTarget::Surface(5), TerminalAction::Scrollbar { total: 9, offset: 2, len: 4 }),
        (
            true,
            ActionEffect::MoveScrollbar { surface: 5, offset: 2, total: 9, len: 4, visible: true }
        )
    );
    assert_eq!(
        act(ActionTarget::Surface(6), TerminalAction::Render),
        (true, ActionEffect::Nothing)
    );
    assert_eq!(
        act(ActionTarget::Surface(5), TerminalAction::SetTitle(Some(b"vim".to_vec()))),
        (true, ActionEffect::TitleChanged { surface: 5, title: "vim".to_string() })
    );
    assert_eq!(
        act(ActionTarget::Surface(5), TerminalAction::SetTitle(Some(b"\xc3".to_vec()))),
        (true, ActionEffect::TitleChanged { surface: 5, title: String::new() })
    );
    assert_eq!(
        act(ActionTarget::Surface(5), TerminalAction::SetTitle(None)),
        (true, ActionEffect::Nothing)
    );
    assert_eq!(
        act(
            ActionTarget::Surface(5),
            TerminalAction::DesktopNotification { title: None, body: Some(b"done".to_vec()) }
        ),
        (
            true,
            ActionEffect::Notify { surface: 5, title: String::new(), body: "done".to_string() }
        )
    );
    assert_eq!(
        act(ActionTarget::Surface(5), TerminalAction::MouseShape(MouseShape::Grab)),
        (
            true,
            ActionEffect::UpdateCursor {
                identity,
                update: MouseCursorUpdate::Shape(MouseShape::Grab)
            }
        )
    );
    assert_eq!(
        act(ActionTarget::Surface(5), TerminalAction::MouseOverLink(None)),
        (true, ActionEffect::HideLink(5))
    );
    assert_eq!(
        act(ActionTarget::Surface(6), TerminalAction::OpenUrl(Some(b"x".to_vec()))),
        (true, ActionEffect::OpenUrl { surface: 6, url: "x".to_string(), external: false })
    );
    assert_eq!(
        act(ActionTarget::App, TerminalAction::ReloadConfig),
        (true, ActionEffect::ReloadConfig(ActionTarget::App))
    );
    assert_eq!(
        act(ActionTarget::App, TerminalAction::RingBell),
        (true, ActionEffect::Nothing)
    );
    assert_eq!(
        act(ActionTarget::Surface(5), TerminalAction::Unknown),
        (false, ActionEffect::Nothing)
    );
}

#[test]
fn links_are_previewed_above_the_pointer() {
    assert_eq!(link_preview_position(30, 100), (30, 86));
    assert_eq!(link_preview_position(30, i32::MIN + 3), (30, i32::MIN));
}

#[test]
fn configured_scrollbars_and_opacities() {
    assert!(load_scrollbar_enabled(false, Some(b"never")));
    assert!(load_scrollbar_enabled(true, None));
    assert!(load_scrollbar_enabled(true, Some(b"always")));
    assert!(!load_scrollbar_enabled(true, Some(b"never")));

    let opacity = |x: f64| f64::from_bits(load_background_opacity(Some(x.to_bits())));
    assert_eq!(opacity(0.25), 0.25);
    assert_eq!(opacity(-1.0), 0.0);
    assert_eq!(opacity(2.0), 1.0);
    assert_eq!(opacity(f64::INFINITY), 1.0);
    assert_eq!(f64::from_bits(load_background_opacity(None)), 1.0);
}

#[test]
fn the_context_menu_offers_what_can_be_done() {
    let items = context_menu_items(false, true);
    assert_eq!(items[0].item, MenuItem::Copy);
    assert!(!items[0].enabled);
    assert_eq!(items[1].item, MenuItem::CopyUrl);
    assert_eq!(items.len(), 12);
    assert_eq!(context_menu_items(true, false).len(), 11);
    assert_eq!(MenuItem::Ids.label(), Some("IDs >"));
    assert_eq!(MenuItem::Separator.label(), None);
    assert_eq!(
        choose_menu_item(MenuItem::CopyUrl, Some("https://x")),
        MenuEffect::CopyText("https://x".to_string())
    );
    assert_eq!(choose_menu_item(MenuItem::CopyUrl, None), MenuEffect::Close);
    assert_eq!(
        choose_menu_item(MenuItem::Paste, None),
        MenuEffect::Perform("paste_from_clipboard")
    );
    assert_eq!(choose_menu_item(MenuItem::Ids, None), MenuEffect::ShowIds);

    let identity = TerminalIdentity {
        workspace_id: None,
        surface_id: "3:abc".to_string(),
    };
    assert!(!identity.can_copy_workspace_id());
    assert_eq!(identity.copy_workspace_id(), MenuEffect::Close);
    assert_eq!(identity.copy_surface_id(), MenuEffect::CopyText("3:abc".to_string()));
}

#[test]
fn addresses_are_probed_only_where_the_mouse_is_free() {
    let mut registry = SurfaceIdentityRegistry::default();
    let mut surfaces = SurfaceMap::new();
    surfaces.insert(registry.register(5));
    assert_eq!(url_at_position(None, false, &surfaces), None);
    assert_eq!(url_at_position(Some(5), true, &surfaces), None);
    assert_eq!(url_at_position(Some(6), false, &surfaces), None);
    let steps = url_at_position(Some(5), false, &surfaces).unwrap();
    assert_eq!(steps[0], ProbeStep::Begin);
    assert_eq!(steps[3], ProbeStep::CopyUrl);
    assert_eq!(steps.len(), 8);
}

#[test]
fn searches_need_a_bar_and_a_text() {
    let mut handle = TerminalHandle {
        surface: Some(5),
        search_mode: false,
        search_text: "old".to_string(),
    };
    assert!(!handle.find_next().0);
    let (shown, effects) = handle.show_find();
    assert!(shown);
    assert_eq!(
        effects.last(),
        Some(&HandleEffect::Perform { surface: 5, action: "search:old".to_string() })
    );
    assert_eq!(
        handle.find_next(),
        (
            true,
            vec![HandleEffect::Perform { surface: 5, action: "navigate_search:next".to_string() }]
        )
    );
    assert!(!handle.use_selection_for_find("").0);
    assert!(handle.use_selection_for_find("new").0);
    assert_eq!(handle.search_text, "new");
    let (hidden, effects) = handle.hide_find();
    assert!(hidden);
    assert_eq!(effects.len(), 3);
    assert!(!handle.hide_find().0);

    handle.surface = None;
    assert_eq!(handle.send_text("x"), (false, Vec::new()));
    assert_eq!(handle.read_viewport_text(Some(b"x")).as_deref(), Some(""));
    assert!(!handle.health(true, 1, 1, 1, 1).realized);
    assert_eq!(handle.copy_selection_to_clipboard(true), (false, Vec::new()));
    handle.surface = Some(5);
    assert_eq!(handle.read_viewport_text(Some(b"x\xff")).as_deref(), Some("x\u{fffd}"));
    assert!(handle.health(true, 80, 24, 1, 1).process_exited);
}

#[test]
fn a_widget_makes_one_surface_and_keeps_it() {
    let mut state = TerminalState::new(true);
    assert_eq!(
        state.handle(TerminalEvent::Realize { gl_error: false }),
        vec![TerminalEffect::MakeSurface]
    );
    assert_eq!(
        state.handle(TerminalEvent::SurfaceMade {
            surface: Some(5),
            width: 800,
            height: 600,
            scale: 2
        }),
        vec![
            TerminalEffect::RegisterSurface(5),
            TerminalEffect::SetColorScheme(5),
            TerminalEffect::ApplySavedFontSize(5),
            TerminalEffect::RefreshDisplay(5),
            TerminalEffect::ShowSurface(5),
            TerminalEffect::SetSurfaceFocus { surface: 5, focused: true },
            TerminalEffect::GrabFocus,
        ]
    );
    state.handle(TerminalEvent::Unrealize);
    assert_eq!(
        state.handle(TerminalEvent::Realize { gl_error: false }),
        vec![TerminalEffect::RefreshRealized(5), TerminalEffect::QueueRenderWhenIdle]
    );
    assert_eq!(
        state.handle(TerminalEvent::MousePressed { button: 2, mods: mods(false, true) }),
        vec![
            TerminalEffect::GrabFocus,
            TerminalEffect::MousePosition { surface: 5, mods: mods(false, true) },
            TerminalEffect::OpenLinksOutside(true),
            TerminalEffect::MouseButton {
                surface: 5,
                pressed: true,
                button: MouseButton::Middle,
                mods: mods(false, true)
            },
            TerminalEffect::OpenLinksOutside(false),
        ]
    );
    assert_eq!(
        state.handle(TerminalEvent::MouseReleased { button: 3, mods: mods(false, false) }),
        Vec::new()
    );
    assert_eq!(
        state.handle(TerminalEvent::Destroyed),
        vec![
            TerminalEffect::ReleaseInputMethods,
            TerminalEffect::ForgetSurface(5),
            TerminalEffect::FreeSurface(5),
        ]
    );
    assert_eq!(state.handle(TerminalEvent::Render), Vec::new());
}

#[test]
fn surfaces_start_with_what_can_be_handed_over() {
    let config = surface_config(
        &Some("/work".to_string()),
        &vec![
            ("A".to_string(), "1".to_string()),
            ("B\0".to_string(), "2".to_string()),
            ("C".to_string(), "\0".to_string()),
            ("D".to_string(), "4".to_string()),
        ],
        &Some("ls\0".to_string()),
    );
    assert_eq!(config.working_directory.as_deref(), Some("/work"));
    assert_eq!(
        config.env_vars,
        vec![
            ("A".to_string(), "1".to_string()),
            ("D".to_string(), "4".to_string())
        ]
    );
    assert_eq!(config.command, None);
}

#[test]
fn keys_pass_through_the_input_method() {
    assert_eq!(key_start(None, true), KeyStart::Pass);
    assert_eq!(key_start(Some(5), true), KeyStart::Filter(5));
    assert_eq!(key_start(Some(5), false), KeyStart::Send(5));
    assert_eq!(key_after_filter(5, true), None);
    assert_eq!(key_after_filter(5, false), Some(KeyStart::Send(5)));
    assert_eq!(
        key_end(true, true),
        KeyEnd { reset_composition: true, propagate: false }
    );
    assert_eq!(
        key_end(false, true),
        KeyEnd { reset_composition: false, propagate: true }
    );
}
