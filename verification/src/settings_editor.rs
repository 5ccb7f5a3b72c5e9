//! The settings dialog: the rows it shows, the changes they make to the settings
//! and the style rules that follow the interface scale.
use vstd::arithmetic::div_mod::{lemma_div_denominator, lemma_fundamental_div_mod_converse};
use vstd::arithmetic::power2::*;
use vstd::prelude::*;
use vstd::string::*;

use crate::app_config::{
    clamped_scale, config_in, lemma_sound_names, lemma_switches_are_read_from_their_places,
    sound_at, sound_position, with_setting, AppConfig, ColorScheme, NotificationSound, UiScale,
    DEFAULT_UI_SCALE, MAX_UI_SCALE, MIN_UI_SCALE,
};
use crate::float_bits::{
    lemma_round_bounds, narrow, narrowed, round_half_even, rounded_quotient, single_finite,
    single_units, DOUBLE_FRACTION, DOUBLE_INFINITY, SINGLE_FRACTION,
};
use crate::json::JsonView;
use crate::text::{
    all_digits, decimal, decimal_text, digit_char, digit_value, digits_value,
    lemma_decimal_digits,
};

verus! {

/// Style of the settings window.
pub const SETTINGS_CSS: &'static str =
    "\n.limux-settings-window {\n    background-color: @window_bg_color;\n    color: @window_fg_color;\n}\n";

/// Smallest interface scale that the dialog offers, in percent.
pub const MIN_UI_SCALE_PERCENT: u32 = 80;

/// Largest interface scale that the dialog offers, in percent.
pub const MAX_UI_SCALE_PERCENT: u32 = 200;

/// Step of the interface scale, in percent.
pub const UI_SCALE_STEP_PERCENT: u32 = 5;

/// A style rule whose size follows the interface scale.
#[derive(Clone, Copy, Debug)]
pub struct UiScaleDescriptor {
    pub selector: &'static str,
    pub property: &'static str,
    pub base_size: u32,
}

impl UiScaleDescriptor {
    pub open spec fn model(self) -> (Seq<char>, Seq<char>, nat) {
        (self.selector@, self.property@, self.base_size as nat)
    }
}

/// Selector, property and size at scale 1 of each rule.
pub open spec fn scaled_rules() -> Seq<(Seq<char>, Seq<char>, nat)> {
    seq![
        (".limux-ws-name"@, "font-size"@, 15),
        (".limux-ws-star-btn"@, "font-size"@, 22),
        (".limux-notify-dot, .limux-notify-dot-hidden"@, "font-size"@, 10),
        (".limux-notify-msg, .limux-notify-msg-unread"@, "font-size"@, 11),
        (".limux-sidebar-title"@, "font-size"@, 11),
        (".limux-ws-path"@, "font-size"@, 12),
        (".limux-tab"@, "font-size"@, 12),
        (".limux-pin-icon"@, "font-size"@, 9),
        (".limux-tab-rename-entry"@, "font-size"@, 12),
        (".limux-browser-url-entry, .limux-browser-search-entry"@, "font-size"@, 12),
        (
            ".limux-keybind-hint, .limux-keybind-default, .limux-keybind-error, .limux-keybind-row-hint"@,
            "font-size"@,
            12,
        ),
        (".limux-pane-action image"@, "-gtk-icon-size"@, 16),
        (".limux-tab-close image"@, "-gtk-icon-size"@, 12),
    ]
}

fn descriptor(selector: &'static str, property: &'static str, base_size: u32) -> (r:
    UiScaleDescriptor)
    ensures
        r.model() == (selector@, property@, base_size as nat),
{
    UiScaleDescriptor { selector, property, base_size }
}

/// The rules whose sizes follow the interface scale.
pub fn ui_scale_descriptors() -> (r: Vec<UiScaleDescriptor>)
    ensures
        r@.len() == scaled_rules().len(),
        forall|i: int| 0 <= i < r@.len() ==> (#[trigger] r@[i]).model() == scaled_rules()[i],
{
    vec![
        descriptor(".limux-ws-name", "font-size", 15),
        descriptor(".limux-ws-star-btn", "font-size", 22),
        descriptor(".limux-notify-dot, .limux-notify-dot-hidden", "font-size", 10),
        descriptor(".limux-notify-msg, .limux-notify-msg-unread", "font-size", 11),
        descriptor(".limux-sidebar-title", "font-size", 11),
        descriptor(".limux-ws-path", "font-size", 12),
        descriptor(".limux-tab", "font-size", 12),
        descriptor(".limux-pin-icon", "font-size", 9),
        descriptor(".limux-tab-rename-entry", "font-size", 12),
        descriptor(".limux-browser-url-entry, .limux-browser-search-entry", "font-size", 12),
        descriptor(
            ".limux-keybind-hint, .limux-keybind-default, .limux-keybind-error, .limux-keybind-row-hint",
            "font-size",
            12,
        ),
        descriptor(".limux-pane-action image", "-gtk-icon-size", 16),
        descriptor(".limux-tab-close image", "-gtk-icon-size", 12),
    ]
}

/// An interface scale in units of 2^-24: every scale is a whole number of them.
pub open spec fn scale_units(bits: u32) -> nat {
    let significand = (SINGLE_FRACTION + bits % SINGLE_FRACTION) as nat;
    if bits < DEFAULT_UI_SCALE {
        significand
    } else if bits < MAX_UI_SCALE {
        2 * significand
    } else {
        4 * significand
    }
}

/// The units of a scale measure the number that its pattern encodes.
pub proof fn lemma_scale_units(bits: u32)
    requires
        MIN_UI_SCALE <= bits <= MAX_UI_SCALE,
    ensures
        scale_units(bits) * pow2(125) == single_units(bits),
{
    let m = (SINGLE_FRACTION + bits % SINGLE_FRACTION) as int;
    let p = pow2(125) as int;
    lemma_pow2_unfold(126);
    lemma_pow2_unfold(127);
    assert(m * (2 * p) == (2 * m) * p) by (nonlinear_arith);
    assert(m * (2 * (2 * p)) == (4 * m) * p) by (nonlinear_arith);
}

/// A number rounded to 24 significant bits, ties to even: the precision of a
/// single.
pub open spec fn to_single_precision(n: int) -> int {
    if n < 0x100_0000 {
        n
    } else if n < 0x200_0000 {
        2 * round_half_even(n, 2)
    } else if n < 0x400_0000 {
        4 * round_half_even(n, 4)
    } else if n < 0x800_0000 {
        8 * round_half_even(n, 8)
    } else if n < 0x1000_0000 {
        16 * round_half_even(n, 16)
    } else if n < 0x2000_0000 {
        32 * round_half_even(n, 32)
    } else {
        64 * round_half_even(n, 64)
    }
}

/// A size at a scale, in thousandths of a pixel: the product in single precision,
/// rounded to three decimals, ties to even.
pub open spec fn scaled_thousandths(base_size: nat, scale: u32) -> nat {
    round_half_even(
        1000 * to_single_precision((base_size * scale_units(scale)) as int),
        0x100_0000,
    ) as nat
}

/// A number of thousandths as a decimal fraction with three places.
pub open spec fn thousandths_text(n: nat) -> Seq<char> {
    decimal_text(n / 1000) + "."@ + decimal_text((n / 100) % 10) + decimal_text((n / 10) % 10)
        + decimal_text(n % 10)
}

/// One style rule at a scale.
pub open spec fn rule_text(rule: (Seq<char>, Seq<char>, nat), scale: u32) -> Seq<char> {
    rule.0 + " { "@ + rule.1 + ": "@ + thousandths_text(scaled_thousandths(rule.2, scale))
        + "px; }"@
}

/// The first `n` rules at a scale, one per line.
pub open spec fn css_text(
    rules: Seq<(Seq<char>, Seq<char>, nat)>,
    n: nat,
    scale: u32,
) -> Seq<char>
    decreases n,
{
    if n == 0 {
        Seq::empty()
    } else if n == 1 {
        rule_text(rules[0], scale)
    } else {
        css_text(rules, (n - 1) as nat, scale) + "\n"@ + rule_text(rules[n - 1], scale)
    }
}

fn single_precision(n: u64) -> (r: u64)
    requires
        n < 0x4000_0000,
    ensures
        r == to_single_precision(n as int),
        r <= 0x4000_0000,
{
    if n < 0x100_0000 {
        n
    } else {
        let d: u64 = if n < 0x200_0000 {
            2
        } else if n < 0x400_0000 {
            4
        } else if n < 0x800_0000 {
            8
        } else if n < 0x1000_0000 {
            16
        } else if n < 0x2000_0000 {
            32
        } else {
            64
        };
        let q: u64 = rounded_quotient(n, d);
        proof {
            assert(round_half_even(n as int, d as int) * d <= 0x4000_0000) by {
                let top = 0x4000_0000int / d as int;
                assert(top * d == 0x4000_0000);
                lemma_round_bounds(n as int, d as int, 0, top);
                assert(round_half_even(n as int, d as int) * d <= top * d) by (nonlinear_arith)
                    requires
                        round_half_even(n as int, d as int) <= top,
                        d > 0,
                ;
            }
        }
        d * q
    }
}

fn scaled_size(base_size: u32, scale: UiScale) -> (r: u64)
    requires
        base_size <= 22,
    ensures
        r == scaled_thousandths(base_size as nat, scale.bits()),
{
    let bits: u32 = scale.get();
    let significand: u32 = SINGLE_FRACTION + bits % SINGLE_FRACTION;
    let units: u64 = if bits < DEFAULT_UI_SCALE {
        significand as u64
    } else if bits < MAX_UI_SCALE {
        2 * significand as u64
    } else {
        4 * significand as u64
    };
    assert(units <= 0x200_0000);
    assert(base_size * units <= 22 * 0x200_0000) by (nonlinear_arith)
        requires
            base_size <= 22,
            units <= 0x200_0000,
    ;
    let product: u64 = base_size as u64 * units;
    rounded_quotient(1000 * single_precision(product), 0x100_0000)
}

/// Writes a number of thousandths as a decimal fraction with three places.
pub fn thousandths(n: u64) -> (r: String)
    ensures
        r@ == thousandths_text(n as nat),
{
    let mut text = decimal((n / 1000) as u128);
    text.append(".");
    text.append(decimal(((n / 100) % 10) as u128).as_str());
    text.append(decimal(((n / 10) % 10) as u128).as_str());
    text.append(decimal((n % 10) as u128).as_str());
    text
}

/// The style rules for the interface scale.
pub fn ui_scale_css(config: &AppConfig) -> (r: String)
    ensures
        r@ == css_text(
            scaled_rules(),
            scaled_rules().len(),
            config.appearance.ui_scale.bits(),
        ),
{
    let scale = config.appearance.ui_scale;
    let descriptors = ui_scale_descriptors();
    let mut css = String::new();
    let mut i: usize = 0;
    while i < descriptors.len()
        invariant
            i <= descriptors@.len(),
            descriptors@.len() == scaled_rules().len(),
            forall|j: int|
                0 <= j < descriptors@.len() ==> (#[trigger] descriptors@[j]).model()
                    == scaled_rules()[j],
            css@ == css_text(scaled_rules(), i as nat, scale.bits()),
        decreases descriptors@.len() - i,
    {
        let rule = descriptors[i];
        assert(rule.model() == scaled_rules()[i as int]);
        assert(rule.base_size <= 22);
        if i > 0 {
            css.append("\n");
        }
        let ghost before = css@;
        let mut line = rule.selector.to_owned();
        line.append(" { ");
        line.append(rule.property);
        line.append(": ");
        line.append(thousandths(scaled_size(rule.base_size, scale)).as_str());
        line.append("px; }");
        css.append(line.as_str());
        assert(line@ == rule_text(scaled_rules()[i as int], scale.bits()));
        proof {
            if i == 0 {
                assert(css@ =~= line@);
            }
        }
        i += 1;
    }
    css
}

/// Labels of the color schemes, in the order of their positions.
pub fn scheme_labels() -> (r: [&'static str; 3])
    ensures
        r@[scheme_position(ColorScheme::System) as int]@ == "System"@,
        r@[scheme_position(ColorScheme::Dark) as int]@ == "Dark"@,
        r@[scheme_position(ColorScheme::Light) as int]@ == "Light"@,
{
    ["System", "Dark", "Light"]
}

/// Position of a color scheme in the list of labels.
pub open spec fn scheme_position(scheme: ColorScheme) -> u32 {
    match scheme {
        ColorScheme::System => 0,
        ColorScheme::Dark => 1,
        ColorScheme::Light => 2,
    }
}

/// The color scheme at a position; the system's past the end of the list.
pub open spec fn scheme_at(index: u32) -> ColorScheme {
    if index == 1 {
        ColorScheme::Dark
    } else if index == 2 {
        ColorScheme::Light
    } else {
        ColorScheme::System
    }
}

pub fn scheme_dropdown_index(scheme: ColorScheme) -> (r: u32)
    ensures
        r == scheme_position(scheme),
{
    match scheme {
        ColorScheme::System => 0,
        ColorScheme::Dark => 1,
        ColorScheme::Light => 2,
    }
}

pub fn scheme_from_dropdown_index(index: u32) -> (r: ColorScheme)
    ensures
        r == scheme_at(index),
{
    match index {
        1 => ColorScheme::Dark,
        2 => ColorScheme::Light,
        _ => ColorScheme::System,
    }
}

/// Every color scheme is found again at its position.
pub proof fn lemma_scheme_positions(scheme: ColorScheme)
    ensures
        scheme_at(scheme_position(scheme)) == scheme,
{
}

/// A change that the dialog makes to the settings.
#[derive(Clone, Copy, Debug, PartialEq, Eq, Structural)]
pub enum SettingsChange {
    WindowScheme(ColorScheme),
    TerminalScheme(ColorScheme),
    HoverFocus(bool),
    ShowWorkspacePath(bool),
    KeepWorkspaceOpen(bool),
    CopySelection(bool),
    /// A new interface scale, as a single-precision pattern.
    Scale(u32),
    ResetScale,
    NotificationsEnabled(bool),
    Sound(NotificationSound),
}

/// The settings after a change. A scale that is no finite number resets the
/// scale.
pub open spec fn changed(config: AppConfig, change: SettingsChange) -> AppConfig {
    match change {
        SettingsChange::WindowScheme(scheme) => AppConfig {
            appearance: crate::app_config::AppearanceConfig {
                color_scheme: scheme,
                ..config.appearance
            },
            ..config
        },
        SettingsChange::TerminalScheme(scheme) => AppConfig {
            appearance: crate::app_config::AppearanceConfig {
                ghostty_color_scheme: scheme,
                ..config.appearance
            },
            ..config
        },
        SettingsChange::HoverFocus(on) => AppConfig {
            focus: crate::app_config::FocusConfig { hover_terminal_focus: on },
            ..config
        },
        SettingsChange::ShowWorkspacePath(on) => AppConfig {
            appearance: crate::app_config::AppearanceConfig {
                show_workspace_path: on,
                ..config.appearance
            },
            ..config
        },
        SettingsChange::KeepWorkspaceOpen(on) => AppConfig {
            workspace: crate::app_config::WorkspaceConfig {
                keep_open_after_last_terminal_closes: on,
            },
            ..config
        },
        SettingsChange::CopySelection(on) => AppConfig {
            clipboard: crate::app_config::ClipboardConfig { copy_selection_to_clipboard: on },
            ..config
        },
        SettingsChange::Scale(bits) => AppConfig {
            appearance: crate::app_config::AppearanceConfig {
                ui_scale: UiScale::of(
                    if single_finite(bits) {
                        clamped_scale(bits)
                    } else {
                        DEFAULT_UI_SCALE
                    },
                ),
                ..config.appearance
            },
            ..config
        },
        SettingsChange::ResetScale => AppConfig {
            appearance: crate::app_config::AppearanceConfig {
                ui_scale: UiScale::of(DEFAULT_UI_SCALE),
                ..config.appearance
            },
            ..config
        },
        SettingsChange::NotificationsEnabled(on) => AppConfig {
            notifications: crate::app_config::NotificationConfig {
                enabled: on,
                ..config.notifications
            },
            ..config
        },
        SettingsChange::Sound(sound) => AppConfig {
            notifications: crate::app_config::NotificationConfig { sound, ..config.notifications },
            ..config
        },
    }
}

/// Makes a change.
pub fn update_config(config: &mut AppConfig, change: SettingsChange)
    ensures
        *final(config) == changed(*old(config), change),
{
    match change {
        SettingsChange::WindowScheme(scheme) => {
            config.appearance.color_scheme = scheme;
        },
        SettingsChange::TerminalScheme(scheme) => {
            config.appearance.ghostty_color_scheme = scheme;
        },
        SettingsChange::HoverFocus(on) => {
            config.focus.hover_terminal_focus = on;
        },
        SettingsChange::ShowWorkspacePath(on) => {
            config.appearance.show_workspace_path = on;
        },
        SettingsChange::KeepWorkspaceOpen(on) => {
            config.workspace.keep_open_after_last_terminal_closes = on;
        },
        SettingsChange::CopySelection(on) => {
            config.clipboard.copy_selection_to_clipboard = on;
        },
        SettingsChange::Scale(bits) => {
            match UiScale::new(bits) {
                Some(scale) => {
                    proof {
                        scale.lemma_bits();
                    }
                    config.appearance.ui_scale = scale;
                },
                None => {
                    config.appearance.ui_scale = UiScale::default();
                },
            }
        },
        SettingsChange::ResetScale => {
            config.appearance.ui_scale = UiScale::default();
        },
        SettingsChange::NotificationsEnabled(on) => {
            config.notifications.enabled = on;
        },
        SettingsChange::Sound(sound) => {
            config.notifications.sound = sound;
        },
    }
}

/// Makes a change, announces it and returns the settings that are in force then:
/// those that the listener, told the settings before and after, answered with.
pub fn apply_config_change<F: Fn(&AppConfig, &AppConfig) -> AppConfig>(
    config: &mut AppConfig,
    on_changed: F,
    change: SettingsChange,
) -> (r: AppConfig)
    requires
        forall|before: &AppConfig, after: &AppConfig|
            call_requires(on_changed, (before, after)),
    ensures
        call_ensures(on_changed, (old(config), &changed(*old(config), change)), r),
        *final(config) == r,
{
    let previous = *config;
    update_config(config, change);
    let updated = *config;
    let effective = on_changed(&previous, &updated);
    *config = effective;
    effective
}

/// Making a change a second time alters nothing.
pub proof fn lemma_change_is_idempotent(config: AppConfig, change: SettingsChange)
    ensures
        changed(changed(config, change), change) == changed(config, change),
{
}

/// What a switch is set to after its change, if it has to move: the settings in
/// force may differ from what it shows.
pub fn switch_correction(active: bool, effective: bool) -> (r: Option<bool>)
    ensures
        r == (if active != effective {
            Some(effective)
        } else {
            None
        }),
{
    if active != effective {
        Some(effective)
    } else {
        None
    }
}

/// The control at the end of a row, and what it shows at first.
#[derive(Clone, Copy, Debug, PartialEq, Eq, Structural)]
pub enum RowControl {
    /// A choice of color schemes, with the selected position.
    Schemes(u32),
    /// A switch.
    Switch(bool),
    /// A percentage and a reset button, with the scale.
    Scale(u32),
    /// A choice of notification sounds, with the selected position.
    Sounds(u32),
}

/// What a row sets.
#[derive(Clone, Copy, Debug, PartialEq, Eq, Structural)]
pub enum RowSetting {
    WindowScheme,
    TerminalScheme,
    HoverFocus,
    ShowWorkspacePath,
    KeepWorkspaceOpen,
    CopySelection,
    Scale,
    NotificationsEnabled,
    Sound,
}

/// A row of a settings page. Titles take one line.
#[derive(Clone, Copy, Debug)]
pub struct SettingsRow {
    pub setting: RowSetting,
    pub title: &'static str,
    pub subtitle: &'static str,
    pub subtitle_lines: u32,
    pub sensitive: bool,
    pub control: RowControl,
}

/// What a [`SettingsRow`] shows.
pub ghost struct RowView {
    pub setting: RowSetting,
    pub title: Seq<char>,
    pub subtitle: Seq<char>,
    pub subtitle_lines: nat,
    pub sensitive: bool,
    pub control: RowControl,
}

impl View for SettingsRow {
    type V = RowView;

    open spec fn view(&self) -> RowView {
        RowView {
            setting: self.setting,
            title: self.title@,
            subtitle: self.subtitle@,
            subtitle_lines: self.subtitle_lines as nat,
            sensitive: self.sensitive,
            control: self.control,
        }
    }
}

/// A row with a subtitle of two lines.
pub open spec fn plain_row(
    setting: RowSetting,
    title: Seq<char>,
    subtitle: Seq<char>,
    control: RowControl,
) -> RowView {
    RowView { setting, title, subtitle, subtitle_lines: 2, sensitive: true, control }
}

fn row(
    setting: RowSetting,
    title: &'static str,
    subtitle: &'static str,
    control: RowControl,
) -> (r: SettingsRow)
    ensures
        r@ == plain_row(setting, title@, subtitle@, control),
{
    SettingsRow { setting, title, subtitle, subtitle_lines: 2, sensitive: true, control }
}

/// The rows of the general page.
pub open spec fn general_rows(config: AppConfig) -> Seq<RowView> {
    seq![
        plain_row(
            RowSetting::WindowScheme,
            "GTK color scheme"@,
            "Choose whether the GTK interface follows system, dark, or light"@,
            RowControl::Schemes(scheme_position(config.appearance.color_scheme)),
        ),
        plain_row(
            RowSetting::TerminalScheme,
            "Ghostty color scheme"@,
            "Choose whether terminal surfaces follow system, dark, or light"@,
            RowControl::Schemes(scheme_position(config.appearance.ghostty_color_scheme)),
        ),
        plain_row(
            RowSetting::HoverFocus,
            "Hover terminal focus"@,
            "Focus terminal panes when the mouse pointer enters them"@,
            RowControl::Switch(config.focus.hover_terminal_focus),
        ),
        plain_row(
            RowSetting::ShowWorkspacePath,
            "Show workspace path"@,
            "Display workspace folder below its name"@,
            RowControl::Switch(config.appearance.show_workspace_path),
        ),
        plain_row(
            RowSetting::KeepWorkspaceOpen,
            "Keep workspace open"@,
            "Keep the workspace available after its final terminal exits"@,
            RowControl::Switch(config.workspace.keep_open_after_last_terminal_closes),
        ),
        plain_row(
            RowSetting::CopySelection,
            "Copy selection automatically"@,
            "Copy selected terminal text to the regular clipboard"@,
            RowControl::Switch(config.clipboard.copy_selection_to_clipboard),
        ),
        plain_row(
            RowSetting::Scale,
            "Interface scale"@,
            "Scale Limux sidebar, pane header, and settings text"@,
            RowControl::Scale(config.appearance.ui_scale.bits()),
        ),
    ]
}

/// The rows of the general page, from top to bottom.
pub fn build_general_page(config: &AppConfig) -> (r: Vec<SettingsRow>)
    ensures
        r@.len() == general_rows(*config).len(),
        forall|i: int| 0 <= i < r@.len() ==> (#[trigger] r@[i])@ == general_rows(*config)[i],
{
    vec![
        row(
            RowSetting::WindowScheme,
            "GTK color scheme",
            "Choose whether the GTK interface follows system, dark, or light",
            RowControl::Schemes(scheme_dropdown_index(config.appearance.color_scheme)),
        ),
        row(
            RowSetting::TerminalScheme,
            "Ghostty color scheme",
            "Choose whether terminal surfaces follow system, dark, or light",
            RowControl::Schemes(scheme_dropdown_index(config.appearance.ghostty_color_scheme)),
        ),
        row(
            RowSetting::HoverFocus,
            "Hover terminal focus",
            "Focus terminal panes when the mouse pointer enters them",
            RowControl::Switch(config.focus.hover_terminal_focus),
        ),
        row(
            RowSetting::ShowWorkspacePath,
            "Show workspace path",
            "Display workspace folder below its name",
            RowControl::Switch(config.appearance.show_workspace_path),
        ),
        row(
            RowSetting::KeepWorkspaceOpen,
            "Keep workspace open",
            "Keep the workspace available after its final terminal exits",
            RowControl::Switch(config.workspace.keep_open_after_last_terminal_closes),
        ),
        row(
            RowSetting::CopySelection,
            "Copy selection automatically",
            "Copy selected terminal text to the regular clipboard",
            RowControl::Switch(config.clipboard.copy_selection_to_clipboard),
        ),
        row(
            RowSetting::Scale,
            "Interface scale",
            "Scale Limux sidebar, pane header, and settings text",
            RowControl::Scale(config.appearance.ui_scale.get()),
        ),
    ]
}

/// The rows of the notifications page. The sound can be chosen only while
/// notifications are shown.
pub open spec fn notification_rows(config: AppConfig) -> Seq<RowView> {
    seq![
        plain_row(
            RowSetting::NotificationsEnabled,
            "Desktop notifications"@,
            "Show desktop alerts when background workspaces need attention"@,
            RowControl::Switch(config.notifications.enabled),
        ),
        RowView {
            setting: RowSetting::Sound,
            title: "Notification sound"@,
            subtitle:
                "Choose sound hint sent with desktop alerts. Support depends on your desktop notification service"@,
            subtitle_lines: 3,
            sensitive: config.notifications.enabled,
            control: RowControl::Sounds(sound_position(config.notifications.sound)),
        },
    ]
}

/// The rows of the notifications page, from top to bottom.
pub fn build_notifications_page(config: &AppConfig) -> (r: Vec<SettingsRow>)
    ensures
        r@.len() == notification_rows(*config).len(),
        forall|i: int| 0 <= i < r@.len() ==> (#[trigger] r@[i])@ == notification_rows(*config)[i],
{
    vec![
        row(
            RowSetting::NotificationsEnabled,
            "Desktop notifications",
            "Show desktop alerts when background workspaces need attention",
            RowControl::Switch(config.notifications.enabled),
        ),
        SettingsRow {
            setting: RowSetting::Sound,
            title: "Notification sound",
            subtitle:
                "Choose sound hint sent with desktop alerts. Support depends on your desktop notification service",
            subtitle_lines: 3,
            sensitive: config.notifications.enabled,
            control: RowControl::Sounds(config.notifications.sound.dropdown_index()),
        },
    ]
}

/// The state that a row's control is moved to.
#[derive(Clone, Copy, Debug, PartialEq, Eq, Structural)]
pub enum RowInput {
    Selected(u32),
    Active(bool),
    /// A scale, as a single-precision pattern.
    Scaled(u32),
    Reset,
}

/// The change that a row's control asks for; `None` for an input that the row's
/// control cannot give.
pub open spec fn change_asked(setting: RowSetting, input: RowInput) -> Option<SettingsChange> {
    match (setting, input) {
        (RowSetting::WindowScheme, RowInput::Selected(i)) => Some(
            SettingsChange::WindowScheme(scheme_at(i)),
        ),
        (RowSetting::TerminalScheme, RowInput::Selected(i)) => Some(
            SettingsChange::TerminalScheme(scheme_at(i)),
        ),
        (RowSetting::HoverFocus, RowInput::Active(on)) => Some(SettingsChange::HoverFocus(on)),
        (RowSetting::ShowWorkspacePath, RowInput::Active(on)) => Some(
            SettingsChange::ShowWorkspacePath(on),
        ),
        (RowSetting::KeepWorkspaceOpen, RowInput::Active(on)) => Some(
            SettingsChange::KeepWorkspaceOpen(on),
        ),
        (RowSetting::CopySelection, RowInput::Active(on)) => Some(
            SettingsChange::CopySelection(on),
        ),
        (RowSetting::Scale, RowInput::Scaled(bits)) => Some(SettingsChange::Scale(bits)),
        (RowSetting::Scale, RowInput::Reset) => Some(SettingsChange::ResetScale),
        (RowSetting::NotificationsEnabled, RowInput::Active(on)) => Some(
            SettingsChange::NotificationsEnabled(on),
        ),
        (RowSetting::Sound, RowInput::Selected(i)) => Some(SettingsChange::Sound(sound_at(i))),
        _ => None,
    }
}

/// Turns the input of a row's control into a change.
pub fn row_change(setting: RowSetting, input: RowInput) -> (r: Option<SettingsChange>)
    ensures
        r == change_asked(setting, input),
{
    match (setting, input) {
        (RowSetting::WindowScheme, RowInput::Selected(i)) => Some(
            SettingsChange::WindowScheme(scheme_from_dropdown_index(i)),
        ),
        (RowSetting::TerminalScheme, RowInput::Selected(i)) => Some(
            SettingsChange::TerminalScheme(scheme_from_dropdown_index(i)),
        ),
        (RowSetting::HoverFocus, RowInput::Active(on)) => Some(SettingsChange::HoverFocus(on)),
        (RowSetting::ShowWorkspacePath, RowInput::Active(on)) => Some(
            SettingsChange::ShowWorkspacePath(on),
        ),
        (RowSetting::KeepWorkspaceOpen, RowInput::Active(on)) => Some(
            SettingsChange::KeepWorkspaceOpen(on),
        ),
        (RowSetting::CopySelection, RowInput::Active(on)) => Some(
            SettingsChange::CopySelection(on),
        ),
        (RowSetting::Scale, RowInput::Scaled(bits)) => Some(SettingsChange::Scale(bits)),
        (RowSetting::Scale, RowInput::Reset) => Some(SettingsChange::ResetScale),
        (RowSetting::NotificationsEnabled, RowInput::Active(on)) => Some(
            SettingsChange::NotificationsEnabled(on),
        ),
        (RowSetting::Sound, RowInput::Selected(i)) => Some(
            SettingsChange::Sound(NotificationSound::from_dropdown_index(i)),
        ),
        _ => None,
    }
}

/// The input that a control gives if it is left at what it shows.
pub open spec fn shown_input(control: RowControl) -> RowInput {
    match control {
        RowControl::Schemes(i) => RowInput::Selected(i),
        RowControl::Switch(on) => RowInput::Active(on),
        RowControl::Scale(bits) => RowInput::Scaled(bits),
        RowControl::Sounds(i) => RowInput::Selected(i),
    }
}

/// The rows of both pages.
pub open spec fn all_rows(config: AppConfig) -> Seq<RowView> {
    general_rows(config) + notification_rows(config)
}

/// Every row shows the setting that it changes: what its control shows, given as
/// input, changes nothing.
pub proof fn lemma_rows_show_settings(config: AppConfig, i: int)
    requires
        config.appearance.ui_scale.wf(),
        0 <= i < all_rows(config).len(),
    ensures
        change_asked(all_rows(config)[i].setting, shown_input(all_rows(config)[i].control))
            matches Some(change) && changed(config, change) == config,
{
    config.appearance.ui_scale.lemma_bits();
    lemma_scheme_positions(config.appearance.color_scheme);
    lemma_scheme_positions(config.appearance.ghostty_color_scheme);
    lemma_sound_names(config.notifications.sound);
}

/// A switch that was moved shows where it was moved to in the settings after the
/// change, and no other row moves.
pub proof fn lemma_switch_moves_its_row(config: AppConfig, i: int, on: bool)
    requires
        0 <= i < all_rows(config).len(),
        all_rows(config)[i].control is Switch,
    ensures
        change_asked(all_rows(config)[i].setting, RowInput::Active(on)) matches Some(change) && {
            let after = all_rows(changed(config, change));
            &&& after[i].control == RowControl::Switch(on)
            &&& forall|j: int|
                0 <= j < after.len() && j != i ==> (#[trigger] after[j]).control == all_rows(
                    config,
                )[j].control
        },
{
}

/// The double-precision pattern of 80.
pub const LEAST_PERCENT: u64 = 0x4054_0000_0000_0000;

/// The double-precision pattern of 100.
pub const HUNDRED_PERCENT: u64 = 0x4059_0000_0000_0000;

/// The double-precision pattern of 200.
pub const MOST_PERCENT: u64 = 0x4069_0000_0000_0000;

/// A number between 0.5 and 256, in units of 2^-53: every double-precision number
/// of that size is a whole number of them.
pub open spec fn fine_units(x: u64) -> int {
    (DOUBLE_FRACTION + x % DOUBLE_FRACTION) * pow2((x / DOUBLE_FRACTION - 1022) as nat)
}

/// A scale in the same units.
pub open spec fn scale_fine_units(bits: u32) -> int {
    (SINGLE_FRACTION + bits % SINGLE_FRACTION) * pow2((bits / SINGLE_FRACTION - 97) as nat)
}

/// Whether a double-precision number is a hundred times a scale.
pub open spec fn is_percentage(bits: u32, x: u64) -> bool {
    &&& LEAST_PERCENT <= x <= MOST_PERCENT
    &&& fine_units(x) == 100 * scale_fine_units(bits)
}

/// The units of a percentage without powers.
proof fn lemma_fine_units(x: u64)
    requires
        LEAST_PERCENT <= x <= MOST_PERCENT,
    ensures
        x / DOUBLE_FRACTION == 1029 || x / DOUBLE_FRACTION == 1030,
        x == (x / DOUBLE_FRACTION) * DOUBLE_FRACTION + x % DOUBLE_FRACTION,
        fine_units(x) == (DOUBLE_FRACTION + x % DOUBLE_FRACTION) * (if x / DOUBLE_FRACTION
            == 1029 {
            128int
        } else {
            256int
        }),
        x < HUNDRED_PERCENT <==> fine_units(x) < 100 * 0x20_0000_0000_0000,
{
    lemma2_to64();
    let m = DOUBLE_FRACTION + x % DOUBLE_FRACTION;
    if x / DOUBLE_FRACTION == 1029 {
        assert(fine_units(x) == m * pow2(7));
    } else {
        assert(x / DOUBLE_FRACTION == 1030);
        assert(fine_units(x) == m * pow2(8));
    }
}

/// The units of a scale without powers.
proof fn lemma_scale_fine_units(bits: u32)
    requires
        MIN_UI_SCALE <= bits <= MAX_UI_SCALE,
    ensures
        126 <= bits / SINGLE_FRACTION <= 128,
        bits == (bits / SINGLE_FRACTION) * SINGLE_FRACTION + bits % SINGLE_FRACTION,
        scale_fine_units(bits) == (SINGLE_FRACTION + bits % SINGLE_FRACTION) * (if bits
            / SINGLE_FRACTION == 126 {
            0x2000_0000int
        } else if bits / SINGLE_FRACTION == 127 {
            0x4000_0000int
        } else {
            0x8000_0000int
        }),
{
    lemma2_to64();
    let s = SINGLE_FRACTION + bits % SINGLE_FRACTION;
    let exponent = bits / SINGLE_FRACTION;
    if exponent == 126 {
        assert(scale_fine_units(bits) == s * pow2(29));
    } else if exponent == 127 {
        assert(scale_fine_units(bits) == s * pow2(30));
    } else {
        assert(scale_fine_units(bits) == s * pow2(31));
    }
}

/// The scale as the percentage that its row shows.
pub fn scale_percent(scale: UiScale) -> (r: u64)
    ensures
        is_percentage(scale.bits(), r),
{
    let bits: u32 = scale.get();
    let exponent: u32 = bits / SINGLE_FRACTION;
    let hundredfold: u64 = 100 * ((SINGLE_FRACTION + bits % SINGLE_FRACTION) as u64);
    let r: u64 = if exponent == 126 {
        // 80 to 100: a multiple of 2^-46
        1028 * DOUBLE_FRACTION + hundredfold * 0x40_0000
    } else if exponent == 128 {
        MOST_PERCENT
    } else if hundredfold < 0x4000_0000 {
        // 100 to 128
        1028 * DOUBLE_FRACTION + hundredfold * 0x80_0000
    } else {
        // 128 to 200: a multiple of 2^-45
        1029 * DOUBLE_FRACTION + hundredfold * 0x40_0000
    };
    proof {
        lemma_scale_fine_units(bits);
        assert(LEAST_PERCENT <= r <= MOST_PERCENT);
        lemma_fine_units(r);
    }
    r
}

/// The double-precision number nearest to a hundredth of a percentage, ties to the
/// even one: below 1 a multiple of 2^-53, from there on of 2^-52.
pub open spec fn hundredth(percent: u64) -> int {
    if percent < HUNDRED_PERCENT {
        1021 * DOUBLE_FRACTION + round_half_even(fine_units(percent), 100)
    } else {
        1022 * DOUBLE_FRACTION + round_half_even(fine_units(percent), 200)
    }
}

/// The scale, as a single-precision pattern, of a percentage that its row was set
/// to.
pub fn scale_of_percent(percent: u64) -> (r: u32)
    requires
        LEAST_PERCENT <= percent <= MOST_PERCENT,
    ensures
        r == narrowed(hundredth(percent) as u64),
        0 <= hundredth(percent) < DOUBLE_INFINITY,
{
    proof {
        lemma_fine_units(percent);
    }
    let significand: u64 = DOUBLE_FRACTION + percent % DOUBLE_FRACTION;
    let doubled = percent / DOUBLE_FRACTION == 1030;
    let units: u64 = if doubled {
        significand * 256
    } else {
        significand * 128
    };
    assert(units == fine_units(percent));
    let quotient: u64 = if percent < HUNDRED_PERCENT {
        proof {
            lemma_round_bounds(units as int, 100, 0, 0x20_0000_0000_0000);
        }
        1021 * DOUBLE_FRACTION + rounded_quotient(units, 100)
    } else {
        proof {
            lemma_round_bounds(units as int, 200, 0, 0x20_0000_0000_0000);
        }
        1022 * DOUBLE_FRACTION + rounded_quotient(units, 200)
    };
    narrow(quotient)
}

/// A scale that is shown as a percentage and read back is the same scale.
pub proof fn lemma_percentage_is_read_back(bits: u32, percent: u64)
    requires
        MIN_UI_SCALE <= bits <= MAX_UI_SCALE,
        is_percentage(bits, percent),
    ensures
        narrowed(hundredth(percent) as u64) == bits,
{
    lemma2_to64();
    let s = (SINGLE_FRACTION + bits % SINGLE_FRACTION) as int;
    let exponent = bits / SINGLE_FRACTION;
    let n = fine_units(percent);
    lemma_fine_units(percent);
    lemma_scale_fine_units(bits);
    if exponent == 126 {
        assert(n == 100 * (s * 0x2000_0000));
        assert(percent < HUNDRED_PERCENT);
        assert(round_half_even(n, 100) == s * 0x2000_0000);
    } else if exponent == 127 {
        assert(n == 200 * (s * 0x2000_0000));
        assert(percent >= HUNDRED_PERCENT);
        assert(round_half_even(n, 200) == s * 0x2000_0000);
    } else {
        assert(n == 200 * (s * 0x4000_0000));
        assert(round_half_even(n, 200) == s * 0x4000_0000);
    }
}

/// What the percentage of the scale row asks for when it changes: nothing while it
/// is set by the dialog itself.
pub fn scale_spin_input(updating: bool, percent: u64) -> (r: Option<RowInput>)
    requires
        LEAST_PERCENT <= percent <= MOST_PERCENT,
    ensures
        r == (if updating {
            None
        } else {
            Some(RowInput::Scaled(narrowed(hundredth(percent) as u64)))
        }),
{
    if updating {
        None
    } else {
        Some(RowInput::Scaled(scale_of_percent(percent)))
    }
}

/// Each change of the dialog is the one that the settings document would bring with
/// that setting put in its place.
pub proof fn lemma_change_is_that_of_the_document(root: Map<Seq<char>, JsonView>, on: bool)
    ensures
        ({
            let config = config_in(JsonView::Object(root));
            let value = JsonView::Bool(on);
            &&& changed(config, SettingsChange::HoverFocus(on)) == config_in(
                JsonView::Object(
                    with_setting(root, "focus"@, "hover_terminal_focus"@, value),
                ),
            )
            &&& changed(config, SettingsChange::ShowWorkspacePath(on)) == config_in(
                JsonView::Object(
                    with_setting(root, "appearance"@, "show_workspace_path"@, value),
                ),
            )
            &&& changed(config, SettingsChange::KeepWorkspaceOpen(on)) == config_in(
                JsonView::Object(
                    with_setting(
                        root,
                        "workspace"@,
                        "keep_open_after_last_terminal_closes"@,
                        value,
                    ),
                ),
            )
            &&& changed(config, SettingsChange::CopySelection(on)) == config_in(
                JsonView::Object(
                    with_setting(root, "clipboard"@, "copy_selection_to_clipboard"@, value),
                ),
            )
            &&& changed(config, SettingsChange::NotificationsEnabled(on)) == config_in(
                JsonView::Object(with_setting(root, "notifications"@, "enabled"@, value)),
            )
        }),
{
    lemma_switches_are_read_from_their_places(root, on);
}

/// A change gives the setting that it is about the value that it brings, and leaves
/// all others as they are. A scale is moved into its range; what is no number, and a
/// reset, give scale 1.
pub proof fn lemma_change_sets_its_setting(
    config: AppConfig,
    scheme: ColorScheme,
    sound: NotificationSound,
    bits: u32,
)
    ensures
        ({
            let window = changed(config, SettingsChange::WindowScheme(scheme));
            let terminal = changed(config, SettingsChange::TerminalScheme(scheme));
            let chime = changed(config, SettingsChange::Sound(sound));
            let scaled = changed(config, SettingsChange::Scale(bits));
            let reset = changed(config, SettingsChange::ResetScale);
            &&& window.appearance.color_scheme == scheme
            &&& changed(
                window,
                SettingsChange::WindowScheme(config.appearance.color_scheme),
            ) == config
            &&& window.appearance.ghostty_color_scheme == config.appearance.ghostty_color_scheme
            &&& terminal.appearance.ghostty_color_scheme == scheme
            &&& terminal.appearance.color_scheme == config.appearance.color_scheme
            &&& changed(
                terminal,
                SettingsChange::TerminalScheme(config.appearance.ghostty_color_scheme),
            ) == config
            &&& chime.notifications.sound == sound
            &&& changed(chime, SettingsChange::Sound(config.notifications.sound)) == config
            &&& MIN_UI_SCALE <= scaled.appearance.ui_scale.bits() <= MAX_UI_SCALE
            &&& MIN_UI_SCALE <= bits <= MAX_UI_SCALE ==> scaled.appearance.ui_scale.bits() == bits
            &&& !single_finite(bits) ==> scaled == reset
            &&& reset.appearance.ui_scale.bits() == DEFAULT_UI_SCALE
            &&& config.appearance.ui_scale.wf() ==> changed(
                scaled,
                SettingsChange::Scale(config.appearance.ui_scale.bits()),
            ) == config && changed(
                reset,
                SettingsChange::Scale(config.appearance.ui_scale.bits()),
            ) == config
        }),
{
    UiScale::lemma_of(DEFAULT_UI_SCALE);
    UiScale::lemma_of(bits);
    UiScale::lemma_of(clamped_scale(bits));
    config.appearance.ui_scale.lemma_bits();
}

/// The dialog has one row for each setting, whose control shows that setting.
pub proof fn lemma_each_setting_has_its_row(config: AppConfig, i: int)
    requires
        0 <= i < all_rows(config).len(),
    ensures
        match all_rows(config)[i].control {
            RowControl::Switch(on) => match all_rows(config)[i].setting {
                RowSetting::HoverFocus => on == config.focus.hover_terminal_focus,
                RowSetting::ShowWorkspacePath => on == config.appearance.show_workspace_path,
                RowSetting::KeepWorkspaceOpen => on
                    == config.workspace.keep_open_after_last_terminal_closes,
                RowSetting::CopySelection => on == config.clipboard.copy_selection_to_clipboard,
                RowSetting::NotificationsEnabled => on == config.notifications.enabled,
                _ => false,
            },
            RowControl::Schemes(position) => match all_rows(config)[i].setting {
                RowSetting::WindowScheme => scheme_at(position) == config.appearance.color_scheme,
                RowSetting::TerminalScheme => scheme_at(position)
                    == config.appearance.ghostty_color_scheme,
                _ => false,
            },
            RowControl::Scale(bits) => all_rows(config)[i].setting == RowSetting::Scale && bits
                == config.appearance.ui_scale.bits(),
            RowControl::Sounds(position) => all_rows(config)[i].setting == RowSetting::Sound
                && sound_at(position) == config.notifications.sound,
        },
        forall|j: int|
            0 <= j < all_rows(config).len() && i != j ==> (#[trigger] all_rows(config)[j]).setting
                != all_rows(config)[i].setting && all_rows(config)[j].title != all_rows(
                config,
            )[i].title,
        all_rows(config).len() == 9,
        all_rows(config)[i].sensitive == (all_rows(config)[i].setting != RowSetting::Sound
            || config.notifications.enabled),
{
    lemma_scheme_positions(config.appearance.color_scheme);
    lemma_scheme_positions(config.appearance.ghostty_color_scheme);
    lemma_sound_names(config.notifications.sound);
    reveal_strlit("GTK color scheme");
    reveal_strlit("Ghostty color scheme");
    reveal_strlit("Hover terminal focus");
    reveal_strlit("Show workspace path");
    reveal_strlit("Keep workspace open");
    reveal_strlit("Copy selection automatically");
    reveal_strlit("Interface scale");
    reveal_strlit("Desktop notifications");
    reveal_strlit("Notification sound");
    let rows = all_rows(config);
    assert forall|j: int| 0 <= j < rows.len() implies #[trigger] rows[j].title.len() >= 15 by {}
    assert forall|j: int| 0 <= j < rows.len() && i != j implies #[trigger] rows[j].title
        != rows[i].title by {
        if rows[j].title == rows[i].title {
            assert(rows[j].title[0] == rows[i].title[0]);
            assert(rows[j].title[1] == rows[i].title[1]);
        }
    }
}

/// A size times a scale is given to the thousandth of a pixel: what the style rule
/// says is less than a thousandth away from the product. At scale 1 it is the size.
pub proof fn lemma_scaled_size_is_close(base_size: nat, scale: u32)
    requires
        base_size <= 32,
        MIN_UI_SCALE <= scale <= MAX_UI_SCALE,
    ensures
        ({
            let exact = 1000 * base_size * scale_units(scale);
            let given = scaled_thousandths(base_size, scale) * 0x100_0000;
            &&& -0x100_0000 < given - exact < 0x100_0000
            &&& scale == DEFAULT_UI_SCALE ==> given == exact
            &&& scale_units(DEFAULT_UI_SCALE) == 0x100_0000
        }),
{
    let units = scale_units(scale);
    let n = (base_size * units) as int;
    assert(0 <= units <= 0x200_0000);
    assert(0 <= n <= 0x4000_0000) by (nonlinear_arith)
        requires
            n == base_size * units,
            0 <= units <= 0x200_0000,
            0 <= base_size <= 32,
    ;
    let rounded = to_single_precision(n);
    assert(-32 <= rounded - n <= 32);
    assert(1000 * base_size * units == 1000 * n) by (nonlinear_arith)
        requires
            n == base_size * units,
    ;
    assert(round_half_even(1000 * rounded, 0x100_0000) >= 0);
    if scale == DEFAULT_UI_SCALE {
        assert(units == 0x100_0000);
        assert(n == base_size * 0x100_0000);
        assert(rounded == n);
    }
}

proof fn lemma_digit(d: nat)
    requires
        d < 10,
    ensures
        digit_value(digit_char(d)) == Some(d),
{
}

proof fn lemma_three_digits(a: char, b: char, c: char)
    requires
        digit_value(a) is Some,
        digit_value(b) is Some,
        digit_value(c) is Some,
    ensures
        digits_value(seq![a, b, c]) == 100 * digit_value(a)->0 + 10 * digit_value(b)->0
            + digit_value(c)->0,
        all_digits(seq![a, b, c]),
{
    reveal_with_fuel(digits_value, 4);
    let tail = seq![a, b, c];
    assert(tail.drop_last() =~= seq![a, b]);
    assert(seq![a, b].drop_last() =~= seq![a]);
    assert(seq![a].drop_last() =~= Seq::<char>::empty());
}

/// A number of thousandths is written with its whole part before the point and
/// exactly three digits behind it.
#[verifier::spinoff_prover]
pub proof fn lemma_thousandths_are_written(n: nat)
    ensures
        ({
            let written = thousandths_text(n);
            let point = written.len() - 4;
            &&& point > 0
            &&& written[point] == '.'
            &&& digits_value(written.take(point)) == n / 1000
            &&& all_digits(written.take(point))
            &&& digits_value(written.skip(point + 1)) == n % 1000
            &&& all_digits(written.skip(point + 1))
        }),
{
    reveal_strlit(".");
    let a = (n / 100) % 10;
    let b = (n / 10) % 10;
    let c = n % 10;
    let written = thousandths_text(n);
    let whole = decimal_text(n / 1000);
    lemma_decimal_digits(n / 1000);
    assert(decimal_text(a) =~= seq![digit_char(a)]);
    assert(decimal_text(b) =~= seq![digit_char(b)]);
    assert(decimal_text(c) =~= seq![digit_char(c)]);
    let point = written.len() - 4;
    assert(written.take(point) =~= whole);
    let tail = written.skip(point + 1);
    assert(tail == seq![digit_char(a), digit_char(b), digit_char(c)]) by {
        assert(tail.len() == 3);
        assert(tail[0] == digit_char(a) && tail[1] == digit_char(b) && tail[2] == digit_char(c));
        assert(tail =~= seq![digit_char(a), digit_char(b), digit_char(c)]);
    }
    lemma_digit(a);
    lemma_digit(b);
    lemma_digit(c);
    lemma_three_digits(digit_char(a), digit_char(b), digit_char(c));
    lemma_last_three_digits(n);
}

proof fn lemma_last_three_digits(n: nat)
    ensures
        n % 1000 == 100 * ((n / 100) % 10) + 10 * ((n / 10) % 10) + n % 10,
{
    let a = (n / 10) as int;
    let b = a / 10;
    lemma_div_denominator(n as int, 10, 10);
    assert(n / 100 == b);
    let c = b / 10;
    let rest = 100 * (b % 10) + 10 * (a % 10) + n as int % 10;
    assert(n == 10 * a + n % 10);
    assert(a == 10 * b + a % 10);
    assert(b == 10 * c + b % 10);
    assert(n == 1000 * c + rest);
    assert(0 <= rest < 1000);
    lemma_fundamental_div_mod_converse(n as int, 1000, c, rest);
}

/// A style rule names what it is about, then the property, and gives its size in
/// pixels last. Rules are written one to a line, in their order.
pub proof fn lemma_rules_are_written_in_order(
    rules: Seq<(Seq<char>, Seq<char>, nat)>,
    n: nat,
    scale: u32,
)
    requires
        n < rules.len(),
    ensures
        ({
            let rule = rule_text(rules[n as int], scale);
            let all = css_text(rules, n + 1, scale);
            let size = thousandths_text(scaled_thousandths(rules[n as int].2, scale));
            &&& (rules[n as int].0 + " { "@ + rules[n as int].1 + ": "@).is_prefix_of(rule)
            &&& (size + "px; }"@).is_suffix_of(rule)
            &&& rule.is_suffix_of(all)
            &&& n == 0 ==> all == rule
            &&& n > 0 ==> (css_text(rules, n, scale) + "\n"@).is_prefix_of(all) && all.len()
                == css_text(rules, n, scale).len() + 1 + rule.len()
        }),
{
    reveal_strlit("\n");
    let rule = rule_text(rules[n as int], scale);
    let all = css_text(rules, n + 1, scale);
    let size = thousandths_text(scaled_thousandths(rules[n as int].2, scale));
    let head = rules[n as int].0 + " { "@ + rules[n as int].1 + ": "@;
    let tail = size + "px; }"@;
    assert(rule =~= head + tail);
    assert(head =~= rule.subrange(0, head.len() as int));
    assert(tail =~= rule.subrange(rule.len() - tail.len(), rule.len() as int));
    assert(rule =~= all.subrange(all.len() - rule.len(), all.len() as int));
    if n > 0 {
        let before = css_text(rules, n, scale) + "\n"@;
        assert(all =~= before + rule);
        assert(before =~= all.subrange(0, before.len() as int));
    }
}

} // verus!
