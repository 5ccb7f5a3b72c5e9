use limux_host::app_config::{AppConfig, ColorScheme, NotificationSound, UiScale, DEFAULT_UI_SCALE};
use limux_host::settings_editor::{
    apply_config_change, build_general_page, build_notifications_page, row_change,
    scale_of_percent, scale_percent, scale_spin_input, scheme_dropdown_index,
    scheme_from_dropdown_index, scheme_labels, switch_correction,
    ui_scale_css, ui_scale_descriptors, RowControl, RowInput, RowSetting, SettingsChange,
};

#[test]
fn apply_config_change_returns_reentrant_config_state() {
    let mut config = AppConfig::default();

    let effective = apply_config_change(
        &mut config,
        |previous: &AppConfig, _updated: &AppConfig| *previous,
        SettingsChange::HoverFocus(true),
    );

    assert!(!effective.focus.hover_terminal_focus);
    assert!(!config.focus.hover_terminal_focus);
}

#[test]
fn a_change_that_is_accepted_is_in_force() {
    let mut config = AppConfig::default();
    let effective = apply_config_change(
        &mut config,
        |previous: &AppConfig, updated: &AppConfig| {
            assert!(!previous.focus.hover_terminal_focus);
            assert!(updated.focus.hover_terminal_focus);
            *updated
        },
        SettingsChange::HoverFocus(true),
    );
    assert!(effective.focus.hover_terminal_focus);
    assert_eq!(config, effective);
}

#[test]
fn ui_scale_css_scales_sidebar_and_pane_chrome() {
    let mut config = AppConfig::default();
    config.appearance.ui_scale = UiScale::new(1.5f32.to_bits()).expect("valid scale");

    let css = ui_scale_css(&config);

    assert!(css.contains(".limux-ws-name { font-size: 22.500px; }"));
    assert!(css.contains(".limux-tab { font-size: 18.000px; }"));
    assert!(css.contains(".limux-pane-action image { -gtk-icon-size: 24.000px; }"));
}

#[test]
fn ui_scale_css_agrees_with_single_precision_arithmetic() {
    let mut bits = 0.8f32.to_bits();
    while bits <= 2.0f32.to_bits() {
        let mut config = AppConfig::default();
        config.appearance.ui_scale = UiScale::new(bits).unwrap();
        let scale = f32::from_bits(bits);
        let expected: Vec<String> = ui_scale_descriptors()
            .iter()
            .map(|rule| {
                format!(
                    "{} {{ {}: {:.3}px; }}",
                    rule.selector,
                    rule.property,
                    rule.base_size as f32 * scale
                )
            })
            .collect();
        assert_eq!(ui_scale_css(&config), expected.join("\n"), "{bits:#x}");
        bits += 9_973;
    }
    // 9 * 0.86805558 is 7.8125 in single precision, a tie at three decimals.
    for tie in [7.8125f32 / 9.0, 10.0625f32 / 12.0, 18.1875f32 / 15.0, 11.0625f32 / 11.0] {
        let mut config = AppConfig::default();
        config.appearance.ui_scale = UiScale::new(tie.to_bits()).unwrap();
        let css = ui_scale_css(&config);
        for rule in ui_scale_descriptors() {
            assert!(css.contains(&format!("{:.3}px", rule.base_size as f32 * tie)));
        }
    }
}

#[test]
fn pages_show_the_settings() {
    let mut config = AppConfig::default();
    config.appearance.color_scheme = ColorScheme::Light;
    config.notifications.sound = NotificationSound::Bell;
    config.notifications.enabled = false;

    let general = build_general_page(&config);
    assert_eq!(general.len(), 7);
    assert_eq!(general[0].title, "GTK color scheme");
    assert_eq!(general[0].control, RowControl::Schemes(2));
    assert_eq!(general[1].control, RowControl::Schemes(0));
    assert_eq!(general[3].setting, RowSetting::ShowWorkspacePath);
    assert_eq!(general[3].control, RowControl::Switch(true));
    assert_eq!(general[6].control, RowControl::Scale(DEFAULT_UI_SCALE));

    let notifications = build_notifications_page(&config);
    assert_eq!(notifications.len(), 2);
    assert_eq!(notifications[0].control, RowControl::Switch(false));
    assert_eq!(notifications[1].control, RowControl::Sounds(2));
    assert!(!notifications[1].sensitive);
    assert_eq!(notifications[1].subtitle_lines, 3);
}

#[test]
fn rows_ask_for_changes() {
    assert_eq!(
        row_change(RowSetting::TerminalScheme, RowInput::Selected(1)),
        Some(SettingsChange::TerminalScheme(ColorScheme::Dark))
    );
    assert_eq!(
        row_change(RowSetting::Sound, RowInput::Selected(77)),
        Some(SettingsChange::Sound(NotificationSound::Default))
    );
    assert_eq!(
        row_change(RowSetting::Scale, RowInput::Reset),
        Some(SettingsChange::ResetScale)
    );
    assert_eq!(row_change(RowSetting::Scale, RowInput::Active(true)), None);
    assert_eq!(switch_correction(true, false), Some(false));
    assert_eq!(switch_correction(true, true), None);
    assert_eq!(scheme_labels(), ["System", "Dark", "Light"]);
    for scheme in [ColorScheme::System, ColorScheme::Dark, ColorScheme::Light] {
        assert_eq!(scheme_from_dropdown_index(scheme_dropdown_index(scheme)), scheme);
    }
    assert_eq!(scheme_from_dropdown_index(9), ColorScheme::System);
}

#[test]
fn a_scale_that_is_no_number_resets_the_scale() {
    let mut config = AppConfig::default();
    config.appearance.ui_scale = UiScale::new(1.5f32.to_bits()).unwrap();
    let effective = apply_config_change(
        &mut config,
        |_: &AppConfig, updated: &AppConfig| *updated,
        SettingsChange::Scale(f32::NAN.to_bits()),
    );
    assert_eq!(effective.appearance.ui_scale.get(), DEFAULT_UI_SCALE);
    let effective = apply_config_change(
        &mut config,
        |_: &AppConfig, updated: &AppConfig| *updated,
        SettingsChange::Scale(1.85f32.to_bits()),
    );
    assert_eq!(effective.appearance.ui_scale.get(), 1.85f32.to_bits());
}

#[test]
fn percentages_agree_with_the_machine() {
    let first = 0.8f32.to_bits();
    let last = 2.0f32.to_bits();
    for i in 0..5000u32 {
        let bits = first + ((last - first) as u64 * i as u64 / 4999) as u32;
        let scale = UiScale::new(bits).unwrap();
        let percent = scale_percent(scale);
        assert_eq!(f64::from_bits(percent), f64::from(f32::from_bits(bits)) * 100.0);
        assert_eq!(scale_of_percent(percent), bits);
    }
    for i in 0..=12000u32 {
        for nudge in [0u64, 1, 2, 0x5555_5555] {
            let percent = (80.0 + f64::from(i) / 100.0).to_bits() + nudge;
            let value = f64::from_bits(percent);
            if value <= 200.0 {
                assert_eq!(scale_of_percent(percent), ((value / 100.0) as f32).to_bits(), "{value}");
            }
        }
    }
    let hundred = 100.0f64.to_bits();
    assert_eq!(scale_spin_input(true, hundred), None);
    assert_eq!(scale_spin_input(false, hundred), Some(RowInput::Scaled(DEFAULT_UI_SCALE)));
}

#[test]
fn rows_show_what_they_set() {
    let mut config = AppConfig::default();
    config.appearance.color_scheme = ColorScheme::Light;
    config.appearance.ui_scale = UiScale::new(1.25f32.to_bits()).unwrap();
    config.notifications.sound = NotificationSound::Alert;
    for row in build_general_page(&config).into_iter().chain(build_notifications_page(&config)) {
        let input = match row.control {
            RowControl::Schemes(i) | RowControl::Sounds(i) => RowInput::Selected(i),
            RowControl::Switch(on) => RowInput::Active(on),
            RowControl::Scale(bits) => RowInput::Scaled(bits),
        };
        let mut copy = config;
        let change = row_change(row.setting, input).unwrap();
        apply_config_change(&mut copy, |_: &AppConfig, updated: &AppConfig| *updated, change);
        assert_eq!(copy, config, "{}", row.title);
    }
}
