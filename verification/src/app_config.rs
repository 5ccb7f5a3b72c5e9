//! Application settings: the values, how they are read from the settings
//! document and how they are written back to it.
use vstd::arithmetic::power2::*;
use vstd::prelude::*;
use vstd::string::*;
use vstd::utf8::*;

use crate::float_bits::{
    lemma_narrow_widen, narrow, narrowed, single_below, single_finite, single_is_finite,
    single_rank, single_units, widen, widened, SINGLE_FRACTION,
};
use crate::json::{
    number_as_double, object_of, parsed_json, read_json, without, Json, JsonNumber, JsonView,
};
use crate::paths::{
    directory_of, join_path, joined_path, lemma_name_start_within, lemma_renamed,
    lemma_separators_in_text, name_of, name_start, path_name, rename_path, renamed,
    up_to_last_component, PATH_SEPARATOR,
};
use crate::text::{decimal, decimal_text, decode, lemma_decimal_digits, same};

verus! {

/// Name of the settings file in the configuration directory.
pub const SETTINGS_FILE_NAME: &'static str = "settings.json";

/// 1.0 in single precision.
pub const DEFAULT_UI_SCALE: u32 = 0x3F80_0000;

/// 0.8 in single precision.
pub const MIN_UI_SCALE: u32 = 0x3F4C_CCCD;

/// 2.0 in single precision.
pub const MAX_UI_SCALE: u32 = 0x4000_0000;

/// 1.0 in single precision, the smallest font size.
pub const MIN_FONT_SIZE: u32 = 0x3F80_0000;

/// 255.0 in single precision, the largest font size.
pub const MAX_FONT_SIZE: u32 = 0x437F_0000;

#[derive(Clone, Copy, Debug, PartialEq, Eq, Structural)]
pub enum ColorScheme {
    System,
    Dark,
    Light,
}

impl Default for ColorScheme {
    fn default() -> (r: Self)
        ensures
            r == ColorScheme::System,
    {
        ColorScheme::System
    }
}

/// How a color scheme is written in the settings document.
pub open spec fn scheme_name(scheme: ColorScheme) -> Seq<char> {
    match scheme {
        ColorScheme::System => "system"@,
        ColorScheme::Dark => "dark"@,
        ColorScheme::Light => "light"@,
    }
}

/// The color scheme with a given name.
pub open spec fn scheme_named(name: Seq<char>) -> Option<ColorScheme> {
    if name == "system"@ {
        Some(ColorScheme::System)
    } else if name == "dark"@ {
        Some(ColorScheme::Dark)
    } else if name == "light"@ {
        Some(ColorScheme::Light)
    } else {
        None
    }
}

impl ColorScheme {
    pub fn as_str(self) -> (r: &'static str)
        ensures
            r@ == scheme_name(self),
    {
        match self {
            ColorScheme::System => "system",
            ColorScheme::Dark => "dark",
            ColorScheme::Light => "light",
        }
    }

    pub fn from_str(s: &str) -> (r: Option<Self>)
        ensures
            r == scheme_named(s@),
    {
        if same(s, "system") {
            Some(ColorScheme::System)
        } else if same(s, "dark") {
            Some(ColorScheme::Dark)
        } else if same(s, "light") {
            Some(ColorScheme::Light)
        } else {
            None
        }
    }
}

/// Every color scheme is found again under its name.
pub proof fn lemma_scheme_names(scheme: ColorScheme)
    ensures
        scheme_named(scheme_name(scheme)) == Some(scheme),
{
    reveal_strlit("system");
    reveal_strlit("dark");
    reveal_strlit("light");
    assert("system"@.len() == 6);
    assert("dark"@.len() == 4);
    assert("light"@.len() == 5);
}

#[derive(Clone, Copy, Debug, PartialEq, Eq, Structural)]
pub struct AppConfig {
    pub focus: FocusConfig,
    pub appearance: AppearanceConfig,
    pub workspace: WorkspaceConfig,
    pub notifications: NotificationConfig,
    pub clipboard: ClipboardConfig,
    /// Font size in points, as a single-precision pattern.
    pub font_size: Option<u32>,
}

#[derive(Clone, Copy, Debug, PartialEq, Eq, Structural)]
pub struct WorkspaceConfig {
    pub keep_open_after_last_terminal_closes: bool,
}

#[derive(Clone, Copy, Debug, PartialEq, Eq, Structural)]
pub struct AppearanceConfig {
    pub color_scheme: ColorScheme,
    pub ghostty_color_scheme: ColorScheme,
    pub ui_scale: UiScale,
    pub show_workspace_path: bool,
}

#[derive(Clone, Copy, Debug, PartialEq, Eq, Structural)]
pub struct FocusConfig {
    pub hover_terminal_focus: bool,
}

#[derive(Clone, Copy, Debug, PartialEq, Eq, Structural)]
pub struct ClipboardConfig {
    pub copy_selection_to_clipboard: bool,
}

#[derive(Clone, Copy, Debug, PartialEq, Eq, Structural)]
pub struct NotificationConfig {
    pub enabled: bool,
    pub sound: NotificationSound,
}

/// A factor between 0.8 and 2.0, as a single-precision pattern.
#[derive(Clone, Copy, Debug, PartialEq, Eq, Structural)]
pub struct UiScale(u32);

impl UiScale {
    /// The single-precision pattern of the factor.
    pub closed spec fn bits(self) -> u32 {
        self.0
    }

    /// The scale with a given pattern.
    pub closed spec fn of(bits: u32) -> UiScale {
        UiScale(bits)
    }

    /// The factor lies between 0.8 and 2.0.
    #[verifier::type_invariant]
    pub closed spec fn wf(self) -> bool {
        MIN_UI_SCALE <= self.0 <= MAX_UI_SCALE
    }

    /// A scale is its pattern.
    pub proof fn lemma_bits(self)
        ensures
            UiScale::of(self.bits()) == self,
            self.wf() <==> MIN_UI_SCALE <= self.bits() <= MAX_UI_SCALE,
    {
    }

    /// The scale of a pattern has that pattern.
    pub proof fn lemma_of(bits: u32)
        ensures
            UiScale::of(bits).bits() == bits,
    {
    }

    /// A finite factor, moved to the nearest end of the range where it lies
    /// outside; what is not finite gives no scale.
    pub fn new(value: u32) -> (r: Option<Self>)
        ensures
            r is Some <==> single_finite(value),
            r matches Some(scale) ==> scale.wf() && scale.bits() == clamped_scale(value),
    {
        if !single_is_finite(value) {
            None
        } else if single_below(value, MIN_UI_SCALE) {
            Some(UiScale(MIN_UI_SCALE))
        } else if single_below(MAX_UI_SCALE, value) {
            Some(UiScale(MAX_UI_SCALE))
        } else {
            Some(UiScale(value))
        }
    }

    pub fn get(self) -> (r: u32)
        ensures
            r == self.bits(),
            MIN_UI_SCALE <= r <= MAX_UI_SCALE,
    {
        proof {
            use_type_invariant(self);
        }
        self.0
    }

    /// Whether the factor is less than 2^-23 away from 1.
    pub fn is_default(self) -> (r: bool)
        ensures
            r == near_default(self.bits()),
    {
        proof {
            use_type_invariant(self);
            lemma_near_default(self.0);
        }
        self.0 == DEFAULT_UI_SCALE || self.0 == 0x3F7F_FFFF
    }
}

/// A factor moved into the range of scales.
pub open spec fn clamped_scale(value: u32) -> u32 {
    if single_rank(value) < single_rank(MIN_UI_SCALE) {
        MIN_UI_SCALE
    } else if single_rank(value) > single_rank(MAX_UI_SCALE) {
        MAX_UI_SCALE
    } else {
        value
    }
}

/// Whether a factor is less than 2^-23 (2^126 units) away from 1.
pub open spec fn near_default(bits: u32) -> bool {
    let distance = single_units(bits) - single_units(DEFAULT_UI_SCALE);
    -pow2(126) < distance < pow2(126)
}

/// In the range of scales only 1 and the number just below it are that close.
pub proof fn lemma_near_default(bits: u32)
    requires
        MIN_UI_SCALE <= bits <= MAX_UI_SCALE,
    ensures
        near_default(bits) == (bits == DEFAULT_UI_SCALE || bits == 0x3F7F_FFFF),
{
    let p = pow2(125) as int;
    lemma_pow2_pos(125);
    lemma_pow2_unfold(126);
    lemma_pow2_unfold(127);
    let exponent = bits / SINGLE_FRACTION;
    let fraction = bits % SINGLE_FRACTION;
    let m = SINGLE_FRACTION + fraction;
    let one = SINGLE_FRACTION as int;
    assert(single_units(DEFAULT_UI_SCALE) == one * pow2(126));
    assert(one * (2 * p) == (2 * one) * p) by (nonlinear_arith);
    if exponent == 126 {
        assert(single_units(bits) == m * p);
        assert(m * p - (2 * one) * p == (m - 2 * one) * p) by (nonlinear_arith);
        let d = m - 2 * one;
        assert(-(2 * p) < d * p < 2 * p <==> -2 < d < 2) by (nonlinear_arith)
            requires
                p > 0,
        ;
    } else if exponent == 127 {
        assert(single_units(bits) == m * pow2(126));
        let d = m - one;
        let p2 = pow2(126) as int;
        assert(m * p2 - one * p2 == d * p2) by (nonlinear_arith)
            requires
                d == m - one,
        ;
        assert(-p2 < d * p2 < p2 <==> d == 0) by (nonlinear_arith)
            requires
                p2 > 0,
        ;
    } else {
        assert(single_units(bits) == one * pow2(127));
        assert(one * (2 * (2 * p)) - one * (2 * p) >= 2 * p) by (nonlinear_arith)
            requires
                p > 0,
                one > 1,
        ;
    }
}

#[derive(Clone, Copy, Debug, PartialEq, Eq, Structural)]
pub enum NotificationSound {
    Default,
    Message,
    Bell,
    Complete,
    Alert,
    Silent,
}

/// How a notification sound is written in the settings document.
pub open spec fn sound_name(sound: NotificationSound) -> Seq<char> {
    match sound {
        NotificationSound::Default => "default"@,
        NotificationSound::Message => "message"@,
        NotificationSound::Bell => "bell"@,
        NotificationSound::Complete => "complete"@,
        NotificationSound::Alert => "alert"@,
        NotificationSound::Silent => "none"@,
    }
}

/// The notification sound with a given name.
pub open spec fn sound_named(name: Seq<char>) -> Option<NotificationSound> {
    if name == "default"@ {
        Some(NotificationSound::Default)
    } else if name == "message"@ {
        Some(NotificationSound::Message)
    } else if name == "bell"@ {
        Some(NotificationSound::Bell)
    } else if name == "complete"@ {
        Some(NotificationSound::Complete)
    } else if name == "alert"@ {
        Some(NotificationSound::Alert)
    } else if name == "none"@ {
        Some(NotificationSound::Silent)
    } else {
        None
    }
}

/// Position of a sound in the list of labels.
pub open spec fn sound_position(sound: NotificationSound) -> u32 {
    match sound {
        NotificationSound::Default => 0,
        NotificationSound::Message => 1,
        NotificationSound::Bell => 2,
        NotificationSound::Complete => 3,
        NotificationSound::Alert => 4,
        NotificationSound::Silent => 5,
    }
}

/// The sound at a position; the default one past the end of the list.
pub open spec fn sound_at(index: u32) -> NotificationSound {
    if index == 1 {
        NotificationSound::Message
    } else if index == 2 {
        NotificationSound::Bell
    } else if index == 3 {
        NotificationSound::Complete
    } else if index == 4 {
        NotificationSound::Alert
    } else if index == 5 {
        NotificationSound::Silent
    } else {
        NotificationSound::Default
    }
}

/// The label that a sound is offered under.
pub open spec fn sound_label(sound: NotificationSound) -> Seq<char> {
    match sound {
        NotificationSound::Default => "Default"@,
        NotificationSound::Message => "Message"@,
        NotificationSound::Bell => "Bell"@,
        NotificationSound::Complete => "Complete"@,
        NotificationSound::Alert => "Alert"@,
        NotificationSound::Silent => "None"@,
    }
}

/// The name of a sound in the freedesktop sound theme.
pub open spec fn theme_sound(sound: NotificationSound) -> Option<Seq<char>> {
    match sound {
        NotificationSound::Default => None,
        NotificationSound::Message => Some("message-new-instant"@),
        NotificationSound::Bell => Some("bell-terminal"@),
        NotificationSound::Complete => Some("complete"@),
        NotificationSound::Alert => Some("dialog-warning"@),
        NotificationSound::Silent => None,
    }
}

impl NotificationSound {
    pub fn as_str(self) -> (r: &'static str)
        ensures
            r@ == sound_name(self),
    {
        match self {
            NotificationSound::Default => "default",
            NotificationSound::Message => "message",
            NotificationSound::Bell => "bell",
            NotificationSound::Complete => "complete",
            NotificationSound::Alert => "alert",
            NotificationSound::Silent => "none",
        }
    }

    pub fn labels() -> (r: [&'static str; 6])
        ensures
            forall|sound: NotificationSound|
                (#[trigger] r@[sound_position(sound) as int])@ == sound_label(sound),
    {
        ["Default", "Message", "Bell", "Complete", "Alert", "None"]
    }

    pub fn dropdown_index(self) -> (r: u32)
        ensures
            r == sound_position(self),
    {
        match self {
            NotificationSound::Default => 0,
            NotificationSound::Message => 1,
            NotificationSound::Bell => 2,
            NotificationSound::Complete => 3,
            NotificationSound::Alert => 4,
            NotificationSound::Silent => 5,
        }
    }

    pub fn from_dropdown_index(index: u32) -> (r: Self)
        ensures
            r == sound_at(index),
    {
        match index {
            1 => NotificationSound::Message,
            2 => NotificationSound::Bell,
            3 => NotificationSound::Complete,
            4 => NotificationSound::Alert,
            5 => NotificationSound::Silent,
            _ => NotificationSound::Default,
        }
    }

    pub fn freedesktop_sound_name(self) -> (r: Option<&'static str>)
        ensures
            theme_sound(self) == (match r {
                Some(s) => Some(s@),
                None => None,
            }),
    {
        match self {
            NotificationSound::Default | NotificationSound::Silent => None,
            NotificationSound::Message => Some("message-new-instant"),
            NotificationSound::Bell => Some("bell-terminal"),
            NotificationSound::Complete => Some("complete"),
            NotificationSound::Alert => Some("dialog-warning"),
        }
    }

    pub fn from_str(s: &str) -> (r: Option<Self>)
        ensures
            r == sound_named(s@),
    {
        if same(s, "default") {
            Some(NotificationSound::Default)
        } else if same(s, "message") {
            Some(NotificationSound::Message)
        } else if same(s, "bell") {
            Some(NotificationSound::Bell)
        } else if same(s, "complete") {
            Some(NotificationSound::Complete)
        } else if same(s, "alert") {
            Some(NotificationSound::Alert)
        } else if same(s, "none") {
            Some(NotificationSound::Silent)
        } else {
            None
        }
    }
}

/// Every sound is found again under its name and at its position.
pub proof fn lemma_sound_names(sound: NotificationSound)
    ensures
        sound_named(sound_name(sound)) == Some(sound),
        sound_at(sound_position(sound)) == sound,
{
    reveal_strlit("default");
    reveal_strlit("message");
    reveal_strlit("bell");
    reveal_strlit("complete");
    reveal_strlit("alert");
    reveal_strlit("none");
    assert("default"@[0] == 'd');
    assert("message"@[0] == 'm');
    assert("bell"@[0] == 'b');
    assert("complete"@[0] == 'c');
    assert("alert"@[0] == 'a');
    assert("none"@[0] == 'n');
}

impl Default for NotificationSound {
    fn default() -> (r: Self)
        ensures
            r == NotificationSound::Default,
    {
        NotificationSound::Default
    }
}

impl Default for NotificationConfig {
    fn default() -> (r: Self)
        ensures
            r == (NotificationConfig { enabled: true, sound: NotificationSound::Default }),
    {
        NotificationConfig { enabled: true, sound: NotificationSound::Default }
    }
}

impl Default for ClipboardConfig {
    fn default() -> (r: Self)
        ensures
            r == (ClipboardConfig { copy_selection_to_clipboard: true }),
    {
        ClipboardConfig { copy_selection_to_clipboard: true }
    }
}

impl Default for FocusConfig {
    fn default() -> (r: Self)
        ensures
            r == (FocusConfig { hover_terminal_focus: false }),
    {
        FocusConfig { hover_terminal_focus: false }
    }
}

impl Default for WorkspaceConfig {
    fn default() -> (r: Self)
        ensures
            r == (WorkspaceConfig { keep_open_after_last_terminal_closes: false }),
    {
        WorkspaceConfig { keep_open_after_last_terminal_closes: false }
    }
}

impl Default for UiScale {
    fn default() -> (r: Self)
        ensures
            r == UiScale::of(DEFAULT_UI_SCALE),
            r.wf(),
    {
        UiScale(DEFAULT_UI_SCALE)
    }
}

/// The appearance before anything is set.
pub open spec fn default_appearance() -> AppearanceConfig {
    AppearanceConfig {
        color_scheme: ColorScheme::System,
        ghostty_color_scheme: ColorScheme::System,
        ui_scale: UiScale::of(DEFAULT_UI_SCALE),
        show_workspace_path: true,
    }
}

impl Default for AppearanceConfig {
    fn default() -> (r: Self)
        ensures
            r == default_appearance(),
    {
        AppearanceConfig {
            color_scheme: ColorScheme::System,
            ghostty_color_scheme: ColorScheme::System,
            ui_scale: UiScale(DEFAULT_UI_SCALE),
            show_workspace_path: true,
        }
    }
}

/// The settings before anything is set.
pub open spec fn default_config() -> AppConfig {
    AppConfig {
        focus: FocusConfig { hover_terminal_focus: false },
        appearance: default_appearance(),
        workspace: WorkspaceConfig { keep_open_after_last_terminal_closes: false },
        notifications: NotificationConfig { enabled: true, sound: NotificationSound::Default },
        clipboard: ClipboardConfig { copy_selection_to_clipboard: true },
        font_size: None,
    }
}

impl Default for AppConfig {
    fn default() -> (r: Self)
        ensures
            r == default_config(),
    {
        AppConfig {
            focus: FocusConfig { hover_terminal_focus: false },
            appearance: AppearanceConfig::default(),
            workspace: WorkspaceConfig { keep_open_after_last_terminal_closes: false },
            notifications: NotificationConfig { enabled: true, sound: NotificationSound::Default },
            clipboard: ClipboardConfig { copy_selection_to_clipboard: true },
            font_size: None,
        }
    }
}

/// A field of a section of the settings document. A section that is no object
/// has no fields.
pub open spec fn setting(root: JsonView, section: Seq<char>, key: Seq<char>) -> Option<JsonView> {
    match root.field(section) {
        Some(v) => v.field(key),
        None => None,
    }
}

/// A setting that is a truth value.
pub open spec fn truth_setting(root: JsonView, section: Seq<char>, key: Seq<char>) -> Option<bool> {
    match setting(root, section, key) {
        Some(v) => v.truth(),
        None => None,
    }
}

/// A setting that names a color scheme.
pub open spec fn scheme_setting(root: JsonView, key: Seq<char>) -> Option<ColorScheme> {
    match setting(root, "appearance"@, key) {
        Some(JsonView::Text(name)) => scheme_named(name),
        _ => None,
    }
}

/// The scale that the document asks for, in single precision.
pub open spec fn scale_setting(root: JsonView) -> u32 {
    match setting(root, "appearance"@, "ui_scale"@) {
        Some(JsonView::Number(n)) => {
            let value = narrowed(number_as_double(n));
            if single_finite(value) {
                clamped_scale(value)
            } else {
                DEFAULT_UI_SCALE
            }
        },
        _ => DEFAULT_UI_SCALE,
    }
}

/// Whether a font size lies between 1 and 255.
pub open spec fn valid_font_size(bits: u32) -> bool {
    MIN_FONT_SIZE <= bits <= MAX_FONT_SIZE
}

/// The font size that the document asks for, in single precision.
pub open spec fn font_size_setting(root: JsonView) -> Option<u32> {
    match root.field("font_size"@) {
        Some(JsonView::Number(n)) => {
            let value = narrowed(number_as_double(n));
            if valid_font_size(value) {
                Some(value)
            } else {
                None
            }
        },
        _ => None,
    }
}

pub open spec fn or<T>(value: Option<T>, default: T) -> T {
    match value {
        Some(v) => v,
        None => default,
    }
}

/// The settings that a document holds. Whatever is missing or of another type
/// takes its default; the terminal's color scheme defaults to the window's.
pub open spec fn config_in(root: JsonView) -> AppConfig {
    let color_scheme = or(scheme_setting(root, "color_scheme"@), ColorScheme::System);
    AppConfig {
        focus: FocusConfig {
            hover_terminal_focus: or(
                truth_setting(root, "focus"@, "hover_terminal_focus"@),
                false,
            ),
        },
        appearance: AppearanceConfig {
            color_scheme,
            ghostty_color_scheme: or(
                scheme_setting(root, "ghostty_color_scheme"@),
                color_scheme,
            ),
            ui_scale: UiScale::of(scale_setting(root)),
            show_workspace_path: or(
                truth_setting(root, "appearance"@, "show_workspace_path"@),
                true,
            ),
        },
        workspace: WorkspaceConfig {
            keep_open_after_last_terminal_closes: or(
                truth_setting(root, "workspace"@, "keep_open_after_last_terminal_closes"@),
                false,
            ),
        },
        notifications: NotificationConfig {
            enabled: or(truth_setting(root, "notifications"@, "enabled"@), true),
            sound: or(
                match setting(root, "notifications"@, "sound"@) {
                    Some(JsonView::Text(name)) => sound_named(name),
                    _ => None,
                },
                NotificationSound::Default,
            ),
        },
        clipboard: ClipboardConfig {
            copy_selection_to_clipboard: or(
                truth_setting(root, "clipboard"@, "copy_selection_to_clipboard"@),
                true,
            ),
        },
        font_size: font_size_setting(root),
    }
}

fn read_setting<'a>(root: &'a Json, section: &str, key: &str) -> (r: Option<&'a Json>)
    ensures
        setting(root@, section@, key@) == (match r {
            Some(v) => Some(v@),
            None => None,
        }),
{
    match root.get(section) {
        Some(v) => v.get(key),
        None => None,
    }
}

fn read_truth(root: &Json, section: &str, key: &str, default: bool) -> (r: bool)
    ensures
        r == or(truth_setting(root@, section@, key@), default),
{
    match read_setting(root, section, key) {
        Some(v) => match v.as_bool() {
            Some(b) => b,
            None => default,
        },
        None => default,
    }
}

fn read_scheme(root: &Json, key: &str, default: ColorScheme) -> (r: ColorScheme)
    ensures
        r == or(scheme_setting(root@, key@), default),
{
    match read_setting(root, "appearance", key) {
        Some(v) => match v.as_str() {
            Some(name) => match ColorScheme::from_str(name) {
                Some(scheme) => scheme,
                None => default,
            },
            None => default,
        },
        None => default,
    }
}

fn read_scale(root: &Json) -> (r: UiScale)
    ensures
        r == UiScale::of(scale_setting(root@)),
        r.wf(),
{
    match read_setting(root, "appearance", "ui_scale") {
        Some(v) => match v.as_double() {
            Some(x) => match UiScale::new(narrow(x)) {
                Some(scale) => scale,
                None => UiScale::default(),
            },
            None => UiScale::default(),
        },
        None => UiScale::default(),
    }
}

fn read_sound(root: &Json) -> (r: NotificationSound)
    ensures
        r == config_in(root@).notifications.sound,
{
    match read_setting(root, "notifications", "sound") {
        Some(v) => match v.as_str() {
            Some(name) => match NotificationSound::from_str(name) {
                Some(sound) => sound,
                None => NotificationSound::Default,
            },
            None => NotificationSound::Default,
        },
        None => NotificationSound::Default,
    }
}

fn read_font_size(root: &Json) -> (r: Option<u32>)
    ensures
        r == font_size_setting(root@),
{
    match root.get("font_size") {
        Some(v) => match v.as_double() {
            Some(x) => {
                let value: u32 = narrow(x);
                if MIN_FONT_SIZE <= value && value <= MAX_FONT_SIZE {
                    Some(value)
                } else {
                    None
                }
            },
            None => None,
        },
        None => None,
    }
}

/// Reads the settings from a settings document.
pub fn parse_app_config_value(root: &Json) -> (r: AppConfig)
    ensures
        r == config_in(root@),
        r.appearance.ui_scale.wf(),
{
    let color_scheme = read_scheme(root, "color_scheme", ColorScheme::System);
    AppConfig {
        focus: FocusConfig {
            hover_terminal_focus: read_truth(root, "focus", "hover_terminal_focus", false),
        },
        appearance: AppearanceConfig {
            color_scheme,
            ghostty_color_scheme: read_scheme(root, "ghostty_color_scheme", color_scheme),
            ui_scale: read_scale(root),
            show_workspace_path: read_truth(root, "appearance", "show_workspace_path", true),
        },
        workspace: WorkspaceConfig {
            keep_open_after_last_terminal_closes: read_truth(
                root,
                "workspace",
                "keep_open_after_last_terminal_closes",
                false,
            ),
        },
        notifications: NotificationConfig {
            enabled: read_truth(root, "notifications", "enabled", true),
            sound: read_sound(root),
        },
        clipboard: ClipboardConfig {
            copy_selection_to_clipboard: read_truth(
                root,
                "clipboard",
                "copy_selection_to_clipboard",
                true,
            ),
        },
        font_size: read_font_size(root),
    }
}

/// A number in single precision as a JSON value: null where it is not finite.
pub open spec fn number_value(bits: u32) -> JsonView {
    if single_finite(bits) {
        JsonView::Number(JsonNumber::Float(widened(bits)))
    } else {
        JsonView::Null
    }
}

/// The appearance section of a saved document. A scale that is as good as 1 is
/// left out.
pub open spec fn appearance_section(appearance: AppearanceConfig) -> JsonView {
    let base = map![
        "color_scheme"@ => JsonView::Text(scheme_name(appearance.color_scheme)),
        "ghostty_color_scheme"@ => JsonView::Text(scheme_name(appearance.ghostty_color_scheme)),
        "show_workspace_path"@ => JsonView::Bool(appearance.show_workspace_path),
    ];
    if near_default(appearance.ui_scale.bits()) {
        JsonView::Object(base)
    } else {
        JsonView::Object(base.insert("ui_scale"@, number_value(appearance.ui_scale.bits())))
    }
}

/// The document that saving `config` over the fields `root` leaves.
pub open spec fn saved_fields(root: Map<Seq<char>, JsonView>, config: AppConfig) -> Map<
    Seq<char>,
    JsonView,
> {
    let sections = root.insert("appearance"@, appearance_section(config.appearance)).insert(
        "focus"@,
        JsonView::Object(
            map!["hover_terminal_focus"@ => JsonView::Bool(config.focus.hover_terminal_focus)],
        ),
    ).insert(
        "workspace"@,
        JsonView::Object(
            map![
                "keep_open_after_last_terminal_closes"@
                    => JsonView::Bool(config.workspace.keep_open_after_last_terminal_closes),
            ],
        ),
    ).insert(
        "notifications"@,
        JsonView::Object(
            map![
                "enabled"@ => JsonView::Bool(config.notifications.enabled),
                "sound"@ => JsonView::Text(sound_name(config.notifications.sound)),
            ],
        ),
    ).insert(
        "clipboard"@,
        JsonView::Object(
            map![
                "copy_selection_to_clipboard"@
                    => JsonView::Bool(config.clipboard.copy_selection_to_clipboard),
            ],
        ),
    );
    match config.font_size {
        Some(size) => sections.insert("font_size"@, number_value(size)),
        None => sections.remove("font_size"@),
    }
}

fn number_json(bits: u32) -> (r: Json)
    ensures
        r@ == number_value(bits),
{
    if single_is_finite(bits) {
        Json::Number(JsonNumber::Float(widen(bits)))
    } else {
        Json::Null
    }
}

fn appearance_json(appearance: &AppearanceConfig) -> (r: Json)
    ensures
        r@ == appearance_section(*appearance),
{
    let base = Json::object().with(
        "color_scheme",
        Json::text(appearance.color_scheme.as_str()),
    ).with("ghostty_color_scheme", Json::text(appearance.ghostty_color_scheme.as_str())).with(
        "show_workspace_path",
        Json::Bool(appearance.show_workspace_path),
    );
    if appearance.ui_scale.is_default() {
        base
    } else {
        base.with("ui_scale", number_json(appearance.ui_scale.get()))
    }
}

/// Writes the settings into the fields of the existing document. Fields that
/// hold no settings stay.
pub fn settings_document(root: Vec<(String, Json)>, config: &AppConfig) -> (r: Json)
    ensures
        r@ == JsonView::Object(saved_fields(object_of(root@), *config)),
{
    let ghost before = object_of(root@);
    let kept = match config.font_size {
        Some(_) => root,
        None => without(root, "font_size"),
    };
    let document = Json::of_entries(kept).with("appearance", appearance_json(&config.appearance)).with(
        "focus",
        Json::object().with("hover_terminal_focus", Json::Bool(config.focus.hover_terminal_focus)),
    ).with(
        "workspace",
        Json::object().with(
            "keep_open_after_last_terminal_closes",
            Json::Bool(config.workspace.keep_open_after_last_terminal_closes),
        ),
    ).with(
        "notifications",
        Json::object().with("enabled", Json::Bool(config.notifications.enabled)).with(
            "sound",
            Json::text(config.notifications.sound.as_str()),
        ),
    ).with(
        "clipboard",
        Json::object().with(
            "copy_selection_to_clipboard",
            Json::Bool(config.clipboard.copy_selection_to_clipboard),
        ),
    );
    proof {
        lemma_document_keys();
    }
    match config.font_size {
        Some(size) => document.with("font_size", number_json(size)),
        None => {
            assert(document@->Object_0 =~= saved_fields(before, *config));
            document
        },
    }
}

/// The keys of the document's own fields differ.
pub proof fn lemma_document_keys()
    ensures
        "appearance"@ != "focus"@,
        "appearance"@ != "workspace"@,
        "appearance"@ != "notifications"@,
        "appearance"@ != "clipboard"@,
        "appearance"@ != "font_size"@,
        "focus"@ != "workspace"@,
        "focus"@ != "notifications"@,
        "focus"@ != "clipboard"@,
        "focus"@ != "font_size"@,
        "workspace"@ != "notifications"@,
        "workspace"@ != "clipboard"@,
        "workspace"@ != "font_size"@,
        "notifications"@ != "clipboard"@,
        "notifications"@ != "font_size"@,
        "clipboard"@ != "font_size"@,
        "color_scheme"@ != "ghostty_color_scheme"@,
        "color_scheme"@ != "show_workspace_path"@,
        "color_scheme"@ != "ui_scale"@,
        "ghostty_color_scheme"@ != "show_workspace_path"@,
        "ghostty_color_scheme"@ != "ui_scale"@,
        "show_workspace_path"@ != "ui_scale"@,
        "enabled"@ != "sound"@,
{
    reveal_strlit("appearance");
    reveal_strlit("focus");
    reveal_strlit("workspace");
    reveal_strlit("notifications");
    reveal_strlit("clipboard");
    reveal_strlit("font_size");
    reveal_strlit("color_scheme");
    reveal_strlit("ghostty_color_scheme");
    reveal_strlit("show_workspace_path");
    reveal_strlit("ui_scale");
    reveal_strlit("enabled");
    reveal_strlit("sound");
    assert("appearance"@[0] == 'a');
    assert("focus"@.len() == 5);
    assert("workspace"@[0] == 'w');
    assert("notifications"@[0] == 'n');
    assert("clipboard"@[0] == 'c');
    assert("font_size"@[0] == 'f');
    assert("font_size"@.len() == 9);
    assert("color_scheme"@[0] == 'c');
    assert("ghostty_color_scheme"@[0] == 'g');
    assert("show_workspace_path"@[0] == 's');
    assert("ui_scale"@[0] == 'u');
    assert("enabled"@[0] == 'e');
    assert("sound"@[0] == 's');
}

/// A field that holds no settings is the same after a save.
pub proof fn lemma_save_keeps_other_fields(
    root: Map<Seq<char>, JsonView>,
    config: AppConfig,
    key: Seq<char>,
)
    requires
        key != "appearance"@,
        key != "focus"@,
        key != "workspace"@,
        key != "notifications"@,
        key != "clipboard"@,
        key != "font_size"@,
    ensures
        JsonView::Object(saved_fields(root, config)).field(key) == JsonView::Object(root).field(
            key,
        ),
{
}

/// Saved settings are read back unchanged, whatever the document held before.
///
/// A scale that is stored as the default must be the default, and a font size
/// must be a valid one: other values are not kept by the document.
pub proof fn lemma_saved_settings_are_read_back(
    root: Map<Seq<char>, JsonView>,
    config: AppConfig,
)
    requires
        config.appearance.ui_scale.wf(),
        near_default(config.appearance.ui_scale.bits()) ==> config.appearance.ui_scale.bits()
            == DEFAULT_UI_SCALE,
        config.font_size matches Some(size) ==> valid_font_size(size),
    ensures
        config_in(JsonView::Object(saved_fields(root, config))) == config,
{
    lemma_document_keys();
    lemma_scheme_names(config.appearance.color_scheme);
    lemma_scheme_names(config.appearance.ghostty_color_scheme);
    lemma_sound_names(config.notifications.sound);
    config.appearance.ui_scale.lemma_bits();
    let scale = config.appearance.ui_scale.bits();
    lemma_narrow_widen(scale);
    let doc = JsonView::Object(saved_fields(root, config));
    assert(doc.field("appearance"@) == Some(appearance_section(config.appearance)));
    if let Some(size) = config.font_size {
        lemma_narrow_widen(size);
        assert(font_size_setting(doc) == Some(size));
    }
    assert(scale_setting(doc) == scale);
    assert(setting(doc, "appearance"@, "color_scheme"@) == Some(
        JsonView::Text(scheme_name(config.appearance.color_scheme)),
    ));
    assert(config_in(doc).appearance == config.appearance);
}

/// Whether two values read as the same setting: they are the same, or numbers that
/// are the same in single precision.
pub open spec fn read_alike(a: Option<JsonView>, b: Option<JsonView>) -> bool {
    ||| a == b
    ||| {
        &&& a matches Some(JsonView::Number(m))
        &&& b matches Some(JsonView::Number(n))
        &&& narrowed(number_as_double(m)) == narrowed(number_as_double(n))
    }
}

/// Whether two documents hold the same settings.
pub open spec fn same_settings(a: JsonView, b: JsonView) -> bool {
    &&& forall|section: Seq<char>, key: Seq<char>|
        read_alike(#[trigger] setting(a, section, key), setting(b, section, key))
    &&& read_alike(a.field("font_size"@), b.field("font_size"@))
}

/// Settings that were saved are read back unchanged from the file, whatever was in
/// it before: a text that holds what the save wrote gives the settings that were
/// saved. Numbers may have lost digits on the way, as long as they are the same in
/// single precision.
///
/// A scale that is stored as the default must be the default, and a font size
/// must be a valid one, as in [`lemma_saved_settings_are_read_back`].
pub proof fn lemma_saved_text_is_read_back(
    raw: Seq<char>,
    root: Map<Seq<char>, JsonView>,
    config: AppConfig,
)
    requires
        config.appearance.ui_scale.wf(),
        near_default(config.appearance.ui_scale.bits()) ==> config.appearance.ui_scale.bits()
            == DEFAULT_UI_SCALE,
        config.font_size matches Some(size) ==> valid_font_size(size),
    ensures
        parsed_json(raw) matches Ok(doc) ==> same_settings(
            doc,
            JsonView::Object(saved_fields(root, config)),
        ) ==> config_in(doc) == config,
{
    let saved = JsonView::Object(saved_fields(root, config));
    lemma_saved_settings_are_read_back(root, config);
    if let Ok(doc) = parsed_json(raw) {
        if same_settings(doc, saved) {
            lemma_same_settings(doc, saved);
        }
    }
}

/// Documents that hold the same settings are read as the same settings.
pub proof fn lemma_same_settings(a: JsonView, b: JsonView)
    requires
        same_settings(a, b),
    ensures
        config_in(a) == config_in(b),
{
    assert(read_alike(
        setting(a, "appearance"@, "color_scheme"@),
        setting(b, "appearance"@, "color_scheme"@),
    ));
    assert(scheme_setting(a, "color_scheme"@) == scheme_setting(b, "color_scheme"@));
    assert(scale_setting(a) == scale_setting(b));
    assert(font_size_setting(a) == font_size_setting(b));
}

/// Saving twice is saving once: the second document is the first.
pub proof fn lemma_save_is_idempotent(root: Map<Seq<char>, JsonView>, config: AppConfig)
    ensures
        saved_fields(saved_fields(root, config), config) == saved_fields(root, config),
{
    lemma_document_keys();
    assert(saved_fields(saved_fields(root, config), config) =~= saved_fields(root, config));
}

/// In a document that names no scheme for the terminal, the terminal follows the
/// window.
pub proof fn lemma_terminal_scheme_follows_window(root: JsonView)
    requires
        setting(root, "appearance"@, "ghostty_color_scheme"@) is None,
    ensures
        config_in(root).appearance.ghostty_color_scheme == config_in(root).appearance.color_scheme,
{
}

/// The document that a first start writes.
pub open spec fn first_document() -> JsonView {
    JsonView::Object(
        map![
            "appearance"@ => JsonView::Object(map![
                "color_scheme"@ => JsonView::Text("dark"@),
                "ghostty_color_scheme"@ => JsonView::Text("dark"@),
                "show_workspace_path"@ => JsonView::Bool(true),
            ]),
            "focus"@ => JsonView::Object(map!["hover_terminal_focus"@ => JsonView::Bool(false)]),
            "workspace"@ => JsonView::Object(map![
                "keep_open_after_last_terminal_closes"@ => JsonView::Bool(false),
            ]),
            "notifications"@ => JsonView::Object(map![
                "enabled"@ => JsonView::Bool(true),
                "sound"@ => JsonView::Text("default"@),
            ]),
            "clipboard"@ => JsonView::Object(map![
                "copy_selection_to_clipboard"@ => JsonView::Bool(true),
            ]),
        ],
    )
}

/// The document to write where there is no settings file yet.
pub fn default_settings_document() -> (r: Json)
    ensures
        r@ == first_document(),
{
    Json::object().with(
        "appearance",
        Json::object().with("color_scheme", Json::text("dark")).with(
            "ghostty_color_scheme",
            Json::text("dark"),
        ).with("show_workspace_path", Json::Bool(true)),
    ).with("focus", Json::object().with("hover_terminal_focus", Json::Bool(false))).with(
        "workspace",
        Json::object().with("keep_open_after_last_terminal_closes", Json::Bool(false)),
    ).with(
        "notifications",
        Json::object().with("enabled", Json::Bool(true)).with("sound", Json::text("default")),
    ).with("clipboard", Json::object().with("copy_selection_to_clipboard", Json::Bool(true)))
}

/// A first start runs with the default settings, but dark.
pub proof fn lemma_first_document_is_dark_default()
    ensures
        config_in(first_document()) == (AppConfig {
            appearance: AppearanceConfig {
                color_scheme: ColorScheme::Dark,
                ghostty_color_scheme: ColorScheme::Dark,
                ..default_appearance()
            },
            ..default_config()
        }),
{
    lemma_document_keys();
    lemma_scheme_names(ColorScheme::Dark);
    lemma_sound_names(NotificationSound::Default);
    let doc = first_document();
    assert(setting(doc, "appearance"@, "color_scheme"@) == Some(JsonView::Text("dark"@)));
    assert(setting(doc, "appearance"@, "ghostty_color_scheme"@) == Some(JsonView::Text("dark"@)));
    assert(setting(doc, "notifications"@, "sound"@) == Some(JsonView::Text("default"@)));
    assert(setting(doc, "notifications"@, "enabled"@) == Some(JsonView::Bool(true)));
}

/// The document that the first settings file is made with. None where no file is
/// made: one that exists stays as it is, and a path without a parent directory
/// counts as done.
pub fn first_file(present: bool, has_parent: bool) -> (r: Option<Json>)
    ensures
        r is Some <==> !present && has_parent,
        r matches Some(document) ==> document@ == first_document(),
{
    if present || !has_parent {
        None
    } else {
        Some(default_settings_document())
    }
}

/// The settings file, given the application's configuration directory where the
/// system has one. Paths are byte strings.
pub fn settings_path(config_dir: Option<Vec<u8>>) -> (r: Option<Vec<u8>>)
    ensures
        match config_dir {
            Some(dir) => r matches Some(path) && path@ == joined_path(
                dir@,
                SETTINGS_FILE_NAME.spec_bytes(),
            ),
            None => r is None,
        },
{
    match config_dir {
        Some(dir) => Some(join_path(dir.as_slice(), SETTINGS_FILE_NAME.as_bytes())),
        None => None,
    }
}

/// The settings file below a base directory for configuration.
pub fn settings_path_in(base: &[u8]) -> (r: Vec<u8>)
    ensures
        r@ == joined_path(
            joined_path(base@, "limux".spec_bytes()),
            SETTINGS_FILE_NAME.spec_bytes(),
        ),
{
    let dir = join_path(base, "limux".as_bytes());
    join_path(dir.as_slice(), SETTINGS_FILE_NAME.as_bytes())
}

/// Name of a file beside the settings file that no other process and no other
/// moment uses: the settings file's own name (`settings.json` where it has none
/// that is text), a suffix, the process and a time stamp.
pub open spec fn sibling_name(
    file_name: Option<Seq<char>>,
    suffix: Seq<char>,
    process: nat,
    nonce: nat,
) -> Seq<char> {
    "."@ + or(file_name, "settings.json"@) + "."@ + suffix + "-"@ + decimal_text(process) + "-"@
        + decimal_text(nonce)
}

fn timestamped_sibling_name(
    file_name: Option<&str>,
    suffix: &str,
    process: u32,
    nonce: u128,
) -> (r: String)
    ensures
        r@ == sibling_name(
            match file_name {
                Some(name) => Some(name@),
                None => None,
            },
            suffix@,
            process as nat,
            nonce as nat,
        ),
{
    let stem = match file_name {
        Some(name) => name,
        None => "settings.json",
    };
    let mut name = ".".to_owned();
    name.append(stem);
    name.append(".");
    name.append(suffix);
    name.append("-");
    name.append(decimal(process as u128).as_str());
    name.append("-");
    name.append(decimal(nonce).as_str());
    name
}

/// The text of a file name, where it is text.
pub open spec fn name_text(name: Option<Seq<u8>>) -> Option<Seq<char>> {
    match name {
        Some(bytes) => if valid_utf8(bytes) {
            Some(decode_utf8(bytes))
        } else {
            None
        },
        None => None,
    }
}

/// The path of a file beside the settings file.
pub open spec fn sibling_path(path: Seq<u8>, suffix: Seq<char>, process: nat, nonce: nat) -> Seq<
    u8,
> {
    renamed(path, encode_utf8(sibling_name(name_text(name_of(path)), suffix, process, nonce)))
}

fn timestamped_sibling_path(path: &[u8], suffix: &str, process: u32, nonce: u128) -> (r: Vec<u8>)
    ensures
        r@ == sibling_path(path@, suffix@, process as nat, nonce as nat),
{
    let decoded = match path_name(path) {
        Some(name) => decode(name.as_slice()),
        None => None,
    };
    let file_name: Option<&str> = match &decoded {
        Some(name) => Some(name.as_str()),
        None => None,
    };
    let sibling = timestamped_sibling_name(file_name, suffix, process, nonce);
    rename_path(path, sibling.as_str().as_bytes())
}

/// The file that a new document is written to before it replaces the old one.
pub fn temp_config_path(path: &[u8], process: u32, nonce: u128) -> (r: Vec<u8>)
    ensures
        r@ == sibling_path(path@, "tmp"@, process as nat, nonce as nat),
{
    timestamped_sibling_path(path, "tmp", process, nonce)
}

/// The file that an unusable document is moved to.
pub fn invalid_config_backup_path(path: &[u8], process: u32, nonce: u128) -> (r: Vec<u8>)
    ensures
        r@ == sibling_path(path@, "bak"@, process as nat, nonce as nat),
{
    timestamped_sibling_path(path, "bak", process, nonce)
}

/// A sibling is another file of the same directory, under the sibling's name. What
/// it is a sibling of may be any path.
pub proof fn lemma_sibling_is_beside(path: Seq<u8>, suffix: Seq<char>, process: nat, nonce: nat)
    requires
        !suffix.contains('/'),
    ensures
        ({
            let sibling = sibling_path(path, suffix, process, nonce);
            let name = sibling_name(name_text(name_of(path)), suffix, process, nonce);
            &&& name_of(sibling) == Some(encode_utf8(name))
            &&& name_text(name_of(sibling)) == Some(name)
            &&& name_of(path) is Some ==> directory_of(sibling) == directory_of(path)
            &&& sibling != path
        }),
{
    reveal_strlit(".");
    reveal_strlit("-");
    reveal_strlit("settings.json");
    let file_name = name_text(name_of(path));
    let stem = or(file_name, "settings.json"@);
    if let Some(bytes) = name_of(path) {
        let front = up_to_last_component(path);
        lemma_name_start_within(front);
        assert(!bytes.contains(PATH_SEPARATOR)) by {
            assert forall|i: int| 0 <= i < bytes.len() implies bytes[i] != PATH_SEPARATOR by {
                assert(bytes[i] == front[name_start(front) + i]);
            }
        }
        if valid_utf8(bytes) {
            lemma_separators_in_text(bytes);
        }
    }
    assert(!stem.contains('/'));
    lemma_decimal_digits(process);
    lemma_decimal_digits(nonce);
    let digits = decimal_text(process);
    let stamp = decimal_text(nonce);
    let name = sibling_name(file_name, suffix, process, nonce);
    assert forall|i: int| 0 <= i < name.len() implies name[i] != '/' by {
        let a = 1 + stem.len() as int;
        let b = a + 1;
        let c = b + suffix.len();
        let d = c + 1;
        let e = d + digits.len();
        let f = e + 1;
        if i < 1 {
        } else if i < a {
            assert(name[i] == stem[i - 1]);
        } else if b <= i < c {
            assert(name[i] == suffix[i - b]);
        } else if d <= i < e {
            assert(name[i] == digits[i - d]);
        } else if f <= i {
            assert(name[i] == stamp[i - f]);
        }
    }
    let bytes = encode_utf8(name);
    encode_utf8_valid_utf8(name);
    encode_utf8_decode_utf8(name);
    lemma_separators_in_text(bytes);
    assert(bytes.len() > 2);
    lemma_renamed(path, bytes);
}

/// The temporary file and the backup of a settings file are never the same file.
pub proof fn lemma_siblings_differ(
    path: Seq<u8>,
    process: nat,
    nonce: nat,
    process2: nat,
    nonce2: nat,
)
    ensures
        sibling_path(path, "tmp"@, process, nonce) != sibling_path(path, "bak"@, process2, nonce2),
{
    reveal_strlit("tmp");
    reveal_strlit("bak");
    lemma_sibling_is_beside(path, "tmp"@, process, nonce);
    lemma_sibling_is_beside(path, "bak"@, process2, nonce2);
    lemma_sibling_names_differ(name_text(name_of(path)), process, nonce, process2, nonce2);
}

/// A temporary file never has the name of a backup.
pub proof fn lemma_sibling_names_differ(
    file_name: Option<Seq<char>>,
    process: nat,
    nonce: nat,
    process2: nat,
    nonce2: nat,
)
    ensures
        sibling_name(file_name, "tmp"@, process, nonce) != sibling_name(
            file_name,
            "bak"@,
            process2,
            nonce2,
        ),
{
    reveal_strlit("tmp");
    reveal_strlit("bak");
    let stem = "."@ + or(file_name, "settings.json"@) + "."@;
    let n = stem.len() as int;
    let a = sibling_name(file_name, "tmp"@, process, nonce);
    let b = sibling_name(file_name, "bak"@, process2, nonce2);
    assert(a[n] == 't');
    assert(b[n] == 'b');
}

/// What was found at the settings path.
pub enum SettingsFile {
    /// There is no file.
    Missing,
    /// The file could not be read.
    Unreadable(String),
    /// The file is not JSON.
    Malformed(String),
    /// The document in the file.
    Document(Json),
}

#[derive(Debug, PartialEq)]
pub struct LoadedAppConfig {
    pub config: AppConfig,
    pub warnings: Vec<String>,
}

impl LoadedAppConfig {
    /// Defaults, with one warning that says why.
    pub open spec fn fell_back(self, warning: Seq<char>) -> bool {
        &&& self.config == default_config()
        &&& self.warnings@.len() == 1
        &&& self.warnings@[0]@ == warning
    }
}

impl Default for LoadedAppConfig {
    fn default() -> (r: Self)
        ensures
            r.config == default_config(),
            r.warnings@.len() == 0,
    {
        LoadedAppConfig { config: AppConfig::default(), warnings: Vec::new() }
    }
}

fn fallback(warning: String) -> (r: LoadedAppConfig)
    ensures
        r.fell_back(warning@),
{
    let mut warnings: Vec<String> = Vec::new();
    warnings.push(warning);
    LoadedAppConfig { config: AppConfig::default(), warnings }
}

/// A message about a file: what happened, the path and the cause.
pub open spec fn path_message(what: Seq<char>, path: Seq<char>, cause: Seq<char>) -> Seq<char> {
    what + " `"@ + path + "`: "@ + cause
}

fn message_about(what: &str, path: &str, cause: &str) -> (r: String)
    ensures
        r@ == path_message(what@, path@, cause@),
{
    let mut message = what.to_owned();
    message.append(" `");
    message.append(path);
    message.append("`: ");
    message.append(cause);
    message
}

/// The settings in what was found at the settings path. A missing file means the
/// defaults; a file that cannot be used means the defaults and a warning.
pub fn load_from_path(path: &str, file: &SettingsFile) -> (r: LoadedAppConfig)
    ensures
        match file {
            SettingsFile::Missing => r.config == default_config() && r.warnings@.len() == 0,
            SettingsFile::Unreadable(cause) => r.fell_back(
                path_message("failed to read app config"@, path@, cause@),
            ),
            SettingsFile::Malformed(cause) => r.fell_back(
                path_message("failed to load app config"@, path@, cause@),
            ),
            SettingsFile::Document(root) => r.config == config_in(root@) && r.warnings@.len() == 0,
        },
{
    match file {
        SettingsFile::Missing => LoadedAppConfig::default(),
        SettingsFile::Unreadable(cause) => fallback(
            message_about("failed to read app config", path, cause.as_str()),
        ),
        SettingsFile::Malformed(cause) => fallback(
            message_about("failed to load app config", path, cause.as_str()),
        ),
        SettingsFile::Document(root) => LoadedAppConfig {
            config: parse_app_config_value(root),
            warnings: Vec::new(),
        },
    }
}

/// What is stored at the settings path.
pub enum StoredSettings {
    /// There is no file.
    Missing,
    /// The file could not be read.
    Unreadable(String),
    /// The text of the file.
    Text(String),
}

/// What a text is as a settings file: the document in it, or no JSON.
pub fn settings_in_text(raw: &str) -> (r: SettingsFile)
    ensures
        match parsed_json(raw@) {
            Ok(root) => r matches SettingsFile::Document(document) && document@ == root,
            Err(cause) => r matches SettingsFile::Malformed(message) && message@ == cause,
        },
{
    match read_json(raw) {
        Ok(document) => SettingsFile::Document(document),
        Err(cause) => SettingsFile::Malformed(cause),
    }
}

/// What is at the settings path, given what is stored there.
pub fn settings_file(stored: StoredSettings) -> (r: SettingsFile)
    ensures
        match stored {
            StoredSettings::Missing => r is Missing,
            StoredSettings::Unreadable(cause) => r matches SettingsFile::Unreadable(message)
                && message@ == cause@,
            StoredSettings::Text(raw) => match parsed_json(raw@) {
                Ok(root) => r matches SettingsFile::Document(document) && document@ == root,
                Err(cause) => r matches SettingsFile::Malformed(message) && message@ == cause,
            },
        },
{
    match stored {
        StoredSettings::Missing => SettingsFile::Missing,
        StoredSettings::Unreadable(cause) => SettingsFile::Unreadable(cause),
        StoredSettings::Text(raw) => settings_in_text(raw.as_str()),
    }
}

/// The settings in the text of a settings file. A text that is no JSON means the
/// defaults and a warning.
pub fn load_from_text(path: &str, raw: &str) -> (r: LoadedAppConfig)
    ensures
        match parsed_json(raw@) {
            Ok(root) => r.config == config_in(root) && r.warnings@.len() == 0,
            Err(cause) => r.fell_back(path_message("failed to load app config"@, path@, cause)),
        },
{
    load_from_path(path, &settings_in_text(raw))
}

/// Where a start looks for settings.
pub enum SettingsSource {
    /// The system has no configuration directory.
    NoConfigDir,
    /// The first document could not be written.
    NotCreated { path: String, cause: String },
    /// A settings path, and what was found there.
    Found { path: String, file: SettingsFile },
}

/// The settings of a start.
pub fn load(source: &SettingsSource) -> (r: LoadedAppConfig)
    ensures
        match source {
            SettingsSource::NoConfigDir => r.fell_back(
                "config_dir unavailable; using default app settings"@,
            ),
            SettingsSource::NotCreated { path, cause } => r.fell_back(
                path_message("failed to create default app config"@, path@, cause@),
            ),
            SettingsSource::Found { path, file } => match file {
                SettingsFile::Missing => r.config == default_config() && r.warnings@.len() == 0,
                SettingsFile::Unreadable(cause) => r.fell_back(
                    path_message("failed to read app config"@, path@, cause@),
                ),
                SettingsFile::Malformed(cause) => r.fell_back(
                    path_message("failed to load app config"@, path@, cause@),
                ),
                SettingsFile::Document(root) => r.config == config_in(root@) && r.warnings@.len()
                    == 0,
            },
        },
{
    match source {
        SettingsSource::NoConfigDir => fallback(
            "config_dir unavailable; using default app settings".to_owned(),
        ),
        SettingsSource::NotCreated { path, cause } => fallback(
            message_about("failed to create default app config", path.as_str(), cause.as_str()),
        ),
        SettingsSource::Found { path, file } => load_from_path(path.as_str(), file),
    }
}

/// What to write a new document over.
pub enum ExistingRoot {
    /// These fields.
    Fields(Vec<(String, Json)>),
    /// No fields, once the unusable file has been moved away for this reason.
    BackUp(String),
    /// Nothing: the save fails with this message.
    Refused(String),
}

/// What a save starts from. A file that is no JSON object is moved away first; a
/// file that cannot be read stops the save.
pub fn read_existing_config_root_for_save(file: SettingsFile) -> (r: ExistingRoot)
    ensures
        match file {
            SettingsFile::Missing => r matches ExistingRoot::Fields(fields) && object_of(fields@)
                == Map::<Seq<char>, JsonView>::empty(),
            SettingsFile::Unreadable(cause) => r matches ExistingRoot::Refused(message) && message@
                == cause@,
            SettingsFile::Malformed(cause) => r matches ExistingRoot::BackUp(detail) && detail@
                == "existing app config is invalid JSON: "@ + cause@,
            SettingsFile::Document(root) => match root@ {
                JsonView::Object(m) => r matches ExistingRoot::Fields(fields) && object_of(fields@)
                    == m,
                _ => r matches ExistingRoot::BackUp(detail) && detail@
                    == "existing app config root must be a JSON object"@,
            },
        },
{
    match file {
        SettingsFile::Missing => {
            let fields: Vec<(String, Json)> = Vec::new();
            ExistingRoot::Fields(fields)
        },
        SettingsFile::Unreadable(cause) => ExistingRoot::Refused(cause),
        SettingsFile::Malformed(cause) => {
            let mut detail = "existing app config is invalid JSON: ".to_owned();
            detail.append(cause.as_str());
            ExistingRoot::BackUp(detail)
        },
        SettingsFile::Document(Json::Object(fields)) => ExistingRoot::Fields(fields),
        SettingsFile::Document(_) => ExistingRoot::BackUp(
            "existing app config root must be a JSON object".to_owned(),
        ),
    }
}

/// What a save does to the settings file.
pub enum SavePlan {
    /// Write the document, after the file there has been moved away for the
    /// reason given, if there is one.
    Write { backup: Option<String>, document: Json },
    /// Leave the file alone and fail with this message.
    Refused(String),
}

/// What saving `config` does, given what was found at the settings path.
pub fn save_to_path(file: SettingsFile, config: &AppConfig) -> (r: SavePlan)
    ensures
        match file {
            SettingsFile::Missing => r matches SavePlan::Write { backup, document } && backup
                is None && document@ == JsonView::Object(saved_fields(Map::empty(), *config)),
            SettingsFile::Unreadable(cause) => r matches SavePlan::Refused(message) && message@
                == cause@,
            SettingsFile::Malformed(cause) => r matches SavePlan::Write {
                backup: Some(detail),
                document,
            } && detail@ == "existing app config is invalid JSON: "@ + cause@ && document@
                == JsonView::Object(saved_fields(Map::empty(), *config)),
            SettingsFile::Document(root) => match root@ {
                JsonView::Object(m) => r matches SavePlan::Write { backup, document } && backup
                    is None && document@ == JsonView::Object(saved_fields(m, *config)),
                _ => r matches SavePlan::Write { backup: Some(detail), document } && detail@
                    == "existing app config root must be a JSON object"@ && document@
                    == JsonView::Object(saved_fields(Map::empty(), *config)),
            },
        },
{
    match read_existing_config_root_for_save(file) {
        ExistingRoot::Fields(fields) => SavePlan::Write {
            backup: None,
            document: settings_document(fields, config),
        },
        ExistingRoot::BackUp(detail) => {
            let fields: Vec<(String, Json)> = Vec::new();
            SavePlan::Write { backup: Some(detail), document: settings_document(fields, config) }
        },
        ExistingRoot::Refused(message) => SavePlan::Refused(message),
    }
}

/// What saving `config` does to a settings file with this text.
pub fn save_over_text(raw: &str, config: &AppConfig) -> (r: SavePlan)
    ensures
        r matches SavePlan::Write { backup, document } && match parsed_json(raw@) {
            Ok(JsonView::Object(m)) => backup is None && document@ == JsonView::Object(
                saved_fields(m, *config),
            ),
            Ok(_) => {
                &&& backup matches Some(detail)
                &&& detail@ == "existing app config root must be a JSON object"@
                &&& document@ == JsonView::Object(saved_fields(Map::empty(), *config))
            },
            Err(cause) => {
                &&& backup matches Some(detail)
                &&& detail@ == "existing app config is invalid JSON: "@ + cause
                &&& document@ == JsonView::Object(saved_fields(Map::empty(), *config))
            },
        },
{
    save_to_path(settings_in_text(raw), config)
}

/// Message of a save whose backup failed.
pub fn backup_failure(detail: &str, path: &str, backup: &str, cause: &str) -> (r: String)
    ensures
        r@ == detail@ + "; failed to back up `"@ + path@ + "` to `"@ + backup@ + "`: "@ + cause@,
{
    let mut message = detail.to_owned();
    message.append("; failed to back up `");
    message.append(path);
    message.append("` to `");
    message.append(backup);
    message.append("`: ");
    message.append(cause);
    message
}

/// Notice that an unusable document has been moved away.
pub fn backup_notice(detail: &str, path: &str, backup: &str) -> (r: String)
    ensures
        r@ == "limux: "@ + detail@ + "; backed up `"@ + path@ + "` to `"@ + backup@
            + "` before rewriting settings"@,
{
    let mut message = "limux: ".to_owned();
    message.append(detail);
    message.append("; backed up `");
    message.append(path);
    message.append("` to `");
    message.append(backup);
    message.append("` before rewriting settings");
    message
}

/// The contents of a settings file: the serialized document and a line end.
pub fn file_contents(serialized: &str) -> (r: String)
    ensures
        r@ == serialized@ + "\n"@,
{
    let mut contents = serialized.to_owned();
    contents.append("\n");
    contents
}

/// The steps of replacing the settings file.
pub enum WriteStep {
    CreateParent,
    WriteTemp,
    RenameTemp,
    /// The replacement failed: remove the temporary file, then fail with this
    /// message.
    RemoveTemp(String),
    Done,
    Failed(String),
}

/// The first step of replacing the settings file.
pub fn first_write_step(has_parent: bool) -> (r: WriteStep)
    ensures
        if has_parent {
            r is CreateParent
        } else {
            r matches WriteStep::Failed(message) && message@
                == "config path has no parent directory"@
        },
{
    if has_parent {
        WriteStep::CreateParent
    } else {
        WriteStep::Failed("config path has no parent directory".to_owned())
    }
}

/// The step after `step` ended with `outcome`. The old file is replaced only by a
/// complete new one; a temporary file that could not take its place is removed.
pub fn next_write_step(step: WriteStep, outcome: Result<(), String>) -> (r: WriteStep)
    ensures
        match step {
            WriteStep::CreateParent => match outcome {
                Ok(_) => r is WriteTemp,
                Err(cause) => r matches WriteStep::Failed(message) && message@ == cause@,
            },
            WriteStep::WriteTemp => match outcome {
                Ok(_) => r is RenameTemp,
                Err(cause) => r matches WriteStep::Failed(message) && message@ == cause@,
            },
            WriteStep::RenameTemp => match outcome {
                Ok(_) => r is Done,
                Err(cause) => r matches WriteStep::RemoveTemp(message) && message@ == cause@,
            },
            WriteStep::RemoveTemp(cause) => r matches WriteStep::Failed(message) && message@
                == cause@,
            WriteStep::Done => r is Done,
            WriteStep::Failed(cause) => r matches WriteStep::Failed(message) && message@ == cause@,
        },
        r is RenameTemp <==> step is WriteTemp && outcome is Ok,
        r is RemoveTemp <==> step is RenameTemp && outcome is Err,
        r is Done <==> step is Done || (step is RenameTemp && outcome is Ok),
        step is RemoveTemp || step is Failed ==> r is Failed,
{
    match step {
        WriteStep::CreateParent => match outcome {
            Ok(_) => WriteStep::WriteTemp,
            Err(cause) => WriteStep::Failed(cause),
        },
        WriteStep::WriteTemp => match outcome {
            Ok(_) => WriteStep::RenameTemp,
            Err(cause) => WriteStep::Failed(cause),
        },
        WriteStep::RenameTemp => match outcome {
            Ok(_) => WriteStep::Done,
            Err(cause) => WriteStep::RemoveTemp(cause),
        },
        WriteStep::RemoveTemp(cause) => WriteStep::Failed(cause),
        WriteStep::Done => WriteStep::Done,
        WriteStep::Failed(cause) => WriteStep::Failed(cause),
    }
}

/// The result of a save, given the settings path as text where there is one and
/// how replacing the file ended.
pub fn save(path: Option<&str>, outcome: Result<(), String>) -> (r: Result<(), String>)
    ensures
        match path {
            None => r matches Err(message) && message@
                == "config_dir unavailable; cannot save app settings"@,
            Some(path) => match outcome {
                Ok(_) => r is Ok,
                Err(cause) => r matches Err(message) && message@ == path_message(
                    "failed to save app config"@,
                    path@,
                    cause@,
                ),
            },
        },
{
    match path {
        None => Err("config_dir unavailable; cannot save app settings".to_owned()),
        Some(path) => match outcome {
            Ok(_) => Ok(()),
            Err(cause) => Err(message_about("failed to save app config", path, cause.as_str())),
        },
    }
}

/// A document with one setting put in: in a section that may not have been there, or
/// not have been one.
pub open spec fn with_setting(
    root: Map<Seq<char>, JsonView>,
    section: Seq<char>,
    key: Seq<char>,
    value: JsonView,
) -> Map<Seq<char>, JsonView> {
    let fields = match JsonView::Object(root).field(section) {
        Some(JsonView::Object(fields)) => fields,
        _ => Map::empty(),
    };
    root.insert(section, JsonView::Object(fields.insert(key, value)))
}

proof fn lemma_with_setting(
    root: Map<Seq<char>, JsonView>,
    section: Seq<char>,
    key: Seq<char>,
    value: JsonView,
)
    ensures
        ({
            let after = JsonView::Object(with_setting(root, section, key, value));
            &&& setting(after, section, key) == Some(value)
            &&& forall|s: Seq<char>, k: Seq<char>|
                s != section || k != key ==> #[trigger] setting(after, s, k) == setting(
                    JsonView::Object(root),
                    s,
                    k,
                )
            &&& "font_size"@ != section ==> after.field("font_size"@) == JsonView::Object(
                root,
            ).field("font_size"@)
        }),
{
}

/// Each setting that is on or off is read from its own place in the document:
/// putting it in there gives that setting and changes no other.
pub proof fn lemma_switches_are_read_from_their_places(root: Map<Seq<char>, JsonView>, on: bool)
    ensures
        ({
            let before = config_in(JsonView::Object(root));
            let value = JsonView::Bool(on);
            let hover = with_setting(root, "focus"@, "hover_terminal_focus"@, value);
            let path = with_setting(root, "appearance"@, "show_workspace_path"@, value);
            let keep = with_setting(
                root,
                "workspace"@,
                "keep_open_after_last_terminal_closes"@,
                value,
            );
            let notify = with_setting(root, "notifications"@, "enabled"@, value);
            let copy = with_setting(root, "clipboard"@, "copy_selection_to_clipboard"@, value);
            &&& config_in(JsonView::Object(hover)) == (AppConfig {
                focus: FocusConfig { hover_terminal_focus: on },
                ..before
            })
            &&& config_in(JsonView::Object(path)) == (AppConfig {
                appearance: AppearanceConfig { show_workspace_path: on, ..before.appearance },
                ..before
            })
            &&& config_in(JsonView::Object(keep)) == (AppConfig {
                workspace: WorkspaceConfig { keep_open_after_last_terminal_closes: on },
                ..before
            })
            &&& config_in(JsonView::Object(notify)) == (AppConfig {
                notifications: NotificationConfig { enabled: on, ..before.notifications },
                ..before
            })
            &&& config_in(JsonView::Object(copy)) == (AppConfig {
                clipboard: ClipboardConfig { copy_selection_to_clipboard: on },
                ..before
            })
        }),
{
    lemma_document_keys();
    let value = JsonView::Bool(on);
    lemma_with_setting(root, "focus"@, "hover_terminal_focus"@, value);
    lemma_with_setting(root, "appearance"@, "show_workspace_path"@, value);
    lemma_with_setting(root, "workspace"@, "keep_open_after_last_terminal_closes"@, value);
    lemma_with_setting(root, "notifications"@, "enabled"@, value);
    lemma_with_setting(root, "clipboard"@, "copy_selection_to_clipboard"@, value);
}

/// The color schemes and the sound are read from their own places by their names.
/// The terminal's scheme alone follows another setting, and only while the document
/// does not name one of its own. A name that means nothing gives the default.
pub proof fn lemma_choices_are_read_from_their_places(
    root: Map<Seq<char>, JsonView>,
    scheme: ColorScheme,
    sound: NotificationSound,
)
    ensures
        ({
            let before = config_in(JsonView::Object(root));
            let name = JsonView::Text(scheme_name(scheme));
            let window = with_setting(root, "appearance"@, "color_scheme"@, name);
            let terminal = with_setting(root, "appearance"@, "ghostty_color_scheme"@, name);
            let chime = with_setting(
                root,
                "notifications"@,
                "sound"@,
                JsonView::Text(sound_name(sound)),
            );
            &&& config_in(JsonView::Object(terminal)) == (AppConfig {
                appearance: AppearanceConfig { ghostty_color_scheme: scheme, ..before.appearance },
                ..before
            })
            &&& config_in(JsonView::Object(window)) == (AppConfig {
                appearance: AppearanceConfig {
                    color_scheme: scheme,
                    ghostty_color_scheme: config_in(
                        JsonView::Object(window),
                    ).appearance.ghostty_color_scheme,
                    ..before.appearance
                },
                ..before
            })
            &&& scheme_setting(JsonView::Object(root), "ghostty_color_scheme"@) is Some
                ==> config_in(JsonView::Object(window)).appearance.ghostty_color_scheme
                == before.appearance.ghostty_color_scheme
            &&& config_in(JsonView::Object(chime)) == (AppConfig {
                notifications: NotificationConfig { sound, ..before.notifications },
                ..before
            })
        }),
{
    lemma_document_keys();
    lemma_scheme_names(scheme);
    lemma_sound_names(sound);
    let name = JsonView::Text(scheme_name(scheme));
    lemma_with_setting(root, "appearance"@, "color_scheme"@, name);
    lemma_with_setting(root, "appearance"@, "ghostty_color_scheme"@, name);
    lemma_with_setting(root, "notifications"@, "sound"@, JsonView::Text(sound_name(sound)));
}

/// An empty document, or what is no document at all, gives what the program starts
/// with: no focus by hovering, the system's colors at scale 1, paths shown,
/// notifications with the default sound, selections copied, workspaces closed with
/// their last terminal, and the terminal's own font size.
pub proof fn lemma_missing_settings_are_default(root: JsonView)
    requires
        root matches JsonView::Object(fields) ==> fields == Map::<Seq<char>, JsonView>::empty(),
    ensures
        ({
            let config = config_in(root);
            &&& !config.focus.hover_terminal_focus
            &&& config.appearance.color_scheme == ColorScheme::System
            &&& config.appearance.ghostty_color_scheme == ColorScheme::System
            &&& config.appearance.ui_scale.bits() == DEFAULT_UI_SCALE
            &&& config.appearance.show_workspace_path
            &&& !config.workspace.keep_open_after_last_terminal_closes
            &&& config.notifications.enabled
            &&& config.notifications.sound == NotificationSound::Default
            &&& config.clipboard.copy_selection_to_clipboard
            &&& config.font_size is None
        }),
{
    UiScale::lemma_of(DEFAULT_UI_SCALE);
}

/// Each setting is saved in the place that it is read from.
pub proof fn lemma_settings_are_saved_in_their_places(
    root: Map<Seq<char>, JsonView>,
    config: AppConfig,
)
    ensures
        ({
            let doc = JsonView::Object(saved_fields(root, config));
            &&& setting(doc, "focus"@, "hover_terminal_focus"@) == Some(
                JsonView::Bool(config.focus.hover_terminal_focus),
            )
            &&& setting(doc, "appearance"@, "show_workspace_path"@) == Some(
                JsonView::Bool(config.appearance.show_workspace_path),
            )
            &&& setting(doc, "appearance"@, "color_scheme"@) == Some(
                JsonView::Text(scheme_name(config.appearance.color_scheme)),
            )
            &&& setting(doc, "appearance"@, "ghostty_color_scheme"@) == Some(
                JsonView::Text(scheme_name(config.appearance.ghostty_color_scheme)),
            )
            &&& setting(doc, "workspace"@, "keep_open_after_last_terminal_closes"@) == Some(
                JsonView::Bool(config.workspace.keep_open_after_last_terminal_closes),
            )
            &&& setting(doc, "notifications"@, "enabled"@) == Some(
                JsonView::Bool(config.notifications.enabled),
            )
            &&& setting(doc, "notifications"@, "sound"@) == Some(
                JsonView::Text(sound_name(config.notifications.sound)),
            )
            &&& setting(doc, "clipboard"@, "copy_selection_to_clipboard"@) == Some(
                JsonView::Bool(config.clipboard.copy_selection_to_clipboard),
            )
            &&& setting(doc, "appearance"@, "ui_scale"@) is None <==> near_default(
                config.appearance.ui_scale.bits(),
            )
            &&& doc.field("font_size"@) is Some <==> config.font_size is Some
        }),
{
    lemma_document_keys();
}

/// A factor in the range of scales is kept, one outside goes to the end of the range
/// that it lies beyond, and of two factors the larger gives no smaller scale.
pub proof fn lemma_scales_are_bounded(a: u32, b: u32)
    requires
        single_finite(a),
        single_finite(b),
    ensures
        MIN_UI_SCALE <= clamped_scale(a) <= MAX_UI_SCALE,
        MIN_UI_SCALE <= a <= MAX_UI_SCALE ==> clamped_scale(a) == a,
        single_rank(a) < single_rank(MIN_UI_SCALE) ==> clamped_scale(a) == MIN_UI_SCALE,
        single_rank(a) > single_rank(MAX_UI_SCALE) ==> clamped_scale(a) == MAX_UI_SCALE,
        single_rank(a) <= single_rank(b) ==> clamped_scale(a) <= clamped_scale(b),
{
}

/// No two color schemes share a name, no two sounds share a name or a label, and no
/// two sounds that the theme has share a sound. Silence and the desktop's own sound
/// are not in the theme.
pub proof fn lemma_names_differ(
    a: ColorScheme,
    b: ColorScheme,
    x: NotificationSound,
    y: NotificationSound,
)
    ensures
        scheme_name(a) == scheme_name(b) ==> a == b,
        sound_name(x) == sound_name(y) ==> x == y,
        sound_label(x) == sound_label(y) ==> x == y,
        sound_position(x) == sound_position(y) ==> x == y,
        theme_sound(x) is None <==> x == NotificationSound::Default || x
            == NotificationSound::Silent,
        theme_sound(x) is Some && theme_sound(x) == theme_sound(y) ==> x == y,
{
    lemma_scheme_names(a);
    lemma_scheme_names(b);
    lemma_sound_names(x);
    lemma_sound_names(y);
    reveal_strlit("Default");
    reveal_strlit("Message");
    reveal_strlit("Bell");
    reveal_strlit("Complete");
    reveal_strlit("Alert");
    reveal_strlit("None");
    reveal_strlit("message-new-instant");
    reveal_strlit("bell-terminal");
    reveal_strlit("complete");
    reveal_strlit("dialog-warning");
    assert(sound_label(x).len() >= 4 && sound_label(y).len() >= 4);
    assert(sound_label(x) == sound_label(y) ==> sound_label(x)[0] == sound_label(y)[0]);
    if theme_sound(x) is Some && theme_sound(y) is Some {
        assert(theme_sound(x) == theme_sound(y) ==> theme_sound(x)->0[0] == theme_sound(y)->0[0]);
    }
}

/// A message about a file says first what failed, then with which file, and why last.
pub proof fn lemma_message_order(what: Seq<char>, path: Seq<char>, cause: Seq<char>)
    ensures
        what.is_prefix_of(path_message(what, path, cause)),
        cause.is_suffix_of(path_message(what, path, cause)),
        path_message(what, path, cause).subrange(
            what.len() as int + 2,
            what.len() as int + 2 + path.len(),
        ) == path,
{
    reveal_strlit(" `");
    reveal_strlit("`: ");
    let message = path_message(what, path, cause);
    assert(what =~= message.subrange(0, what.len() as int));
    assert(cause =~= message.subrange(message.len() - cause.len(), message.len() as int));
    assert(message.subrange(what.len() as int + 2, what.len() as int + 2 + path.len()) =~= path);
}

} // verus!
