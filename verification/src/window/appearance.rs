//! Light and dark: what the desktop prefers, what the settings say, and what the
//! window and its terminals make of it.
use vstd::prelude::*;
use vstd::string::*;

use crate::app_config::{AppConfig, AppearanceConfig, ColorScheme};
use crate::text::same;

verus! {

/// Namespace of the setting in the desktop's portal.
pub const PORTAL_APPEARANCE_NAMESPACE: &'static str = "org.freedesktop.appearance";

/// Key of the setting in the desktop's portal.
pub const PORTAL_COLOR_SCHEME_KEY: &'static str = "color-scheme";

/// What the desktop's portal says of color schemes.
#[derive(Clone, Copy, Debug, PartialEq, Eq, Structural)]
pub enum PortalColorSchemePreference {
    /// It has not said anything.
    Unknown,
    Default,
    Dark,
    Light,
}

impl Default for PortalColorSchemePreference {
    fn default() -> (r: Self)
        ensures
            r == PortalColorSchemePreference::Unknown,
    {
        PortalColorSchemePreference::Unknown
    }
}

/// The portal's preference by its number.
pub open spec fn portal_preference(raw: u32) -> Option<PortalColorSchemePreference> {
    if raw == 0 {
        Some(PortalColorSchemePreference::Default)
    } else if raw == 1 {
        Some(PortalColorSchemePreference::Dark)
    } else if raw == 2 {
        Some(PortalColorSchemePreference::Light)
    } else {
        None
    }
}

/// Whether dark is preferred, where that is known: the portal decides, and where
/// it has no preference, the desktop's own setting.
pub open spec fn prefers_dark(
    portal: PortalColorSchemePreference,
    gnome_prefers_dark: Option<bool>,
) -> Option<bool> {
    match portal {
        PortalColorSchemePreference::Dark => Some(true),
        PortalColorSchemePreference::Light => Some(false),
        PortalColorSchemePreference::Default => gnome_prefers_dark,
        PortalColorSchemePreference::Unknown => gnome_prefers_dark,
    }
}

impl PortalColorSchemePreference {
    pub fn from_raw(raw: u32) -> (r: Option<Self>)
        ensures
            r == portal_preference(raw),
    {
        match raw {
            0 => Some(PortalColorSchemePreference::Default),
            1 => Some(PortalColorSchemePreference::Dark),
            2 => Some(PortalColorSchemePreference::Light),
            _ => None,
        }
    }

    pub fn resolved(self, gnome_prefers_dark: Option<bool>) -> (r: Option<bool>)
        ensures
            r == prefers_dark(self, gnome_prefers_dark),
    {
        match self {
            PortalColorSchemePreference::Dark => Some(true),
            PortalColorSchemePreference::Light => Some(false),
            PortalColorSchemePreference::Default | PortalColorSchemePreference::Unknown =>
                gnome_prefers_dark,
        }
    }
}

pub fn resolved_system_prefers_dark(
    portal_color_scheme_preference: PortalColorSchemePreference,
    gnome_prefers_dark: Option<bool>,
) -> (r: Option<bool>)
    ensures
        r == prefers_dark(portal_color_scheme_preference, gnome_prefers_dark),
{
    portal_color_scheme_preference.resolved(gnome_prefers_dark)
}

/// Whether the desktop's own setting prefers dark; none where it says something
/// unknown.
pub fn gnome_prefers_dark_from_raw(raw: &str) -> (r: Option<bool>)
    ensures
        r == (if raw@ == "prefer-dark"@ {
            Some(true)
        } else if raw@ == "default"@ || raw@ == "prefer-light"@ {
            Some(false)
        } else {
            None
        }),
{
    if same(raw, "prefer-dark") {
        Some(true)
    } else if same(raw, "default") || same(raw, "prefer-light") {
        Some(false)
    } else {
        None
    }
}

/// The toolkit's numbers of color schemes.
pub const GTK_INTERFACE_COLOR_SCHEME_UNSUPPORTED: i32 = 0;

pub const GTK_INTERFACE_COLOR_SCHEME_DEFAULT: i32 = 1;

pub const GTK_INTERFACE_COLOR_SCHEME_DARK: i32 = 2;

pub const GTK_INTERFACE_COLOR_SCHEME_LIGHT: i32 = 3;

/// Whether the toolkit reports dark; none where it reports nothing.
pub fn gtk_system_prefers_dark_from_raw(raw: Option<i32>) -> (r: Option<bool>)
    ensures
        r == (match raw {
            None => None,
            Some(value) => if value == GTK_INTERFACE_COLOR_SCHEME_UNSUPPORTED {
                None
            } else {
                Some(value == GTK_INTERFACE_COLOR_SCHEME_DARK)
            },
        }),
{
    match raw {
        Some(value) => {
            if value == GTK_INTERFACE_COLOR_SCHEME_DARK {
                Some(true)
            } else if value == GTK_INTERFACE_COLOR_SCHEME_UNSUPPORTED {
                None
            } else {
                Some(false)
            }
        },
        None => None,
    }
}

/// The preference that a change of a setting announces; none for other settings
/// and for values that mean nothing.
pub fn portal_setting_changed_preference(namespace: &str, key: &str, value: Option<u32>) -> (r:
    Option<PortalColorSchemePreference>)
    ensures
        r == (if namespace@ == PORTAL_APPEARANCE_NAMESPACE@ && key@ == PORTAL_COLOR_SCHEME_KEY@ {
            match value {
                Some(raw) => portal_preference(raw),
                None => None,
            }
        } else {
            None
        }),
{
    if !same(namespace, PORTAL_APPEARANCE_NAMESPACE) || !same(key, PORTAL_COLOR_SCHEME_KEY) {
        return None;
    }
    match value {
        Some(raw) => PortalColorSchemePreference::from_raw(raw),
        None => None,
    }
}

/// Whether the terminals are dark: as the settings say, and where those follow the
/// system, as that prefers; where its preference is unknown, as the window is.
pub fn ghostty_prefers_dark(
    scheme: ColorScheme,
    system_prefers_dark: Option<bool>,
    fallback_dark: bool,
) -> (r: bool)
    ensures
        r == (match scheme {
            ColorScheme::Dark => true,
            ColorScheme::Light => false,
            ColorScheme::System => match system_prefers_dark {
                Some(dark) => dark,
                None => fallback_dark,
            },
        }),
        scheme == ColorScheme::Dark ==> r,
        scheme == ColorScheme::Light ==> !r,
        scheme == ColorScheme::System ==> (system_prefers_dark matches Some(dark) ==> r == dark),
{
    match scheme {
        ColorScheme::Dark => true,
        ColorScheme::Light => false,
        ColorScheme::System => match system_prefers_dark {
            Some(dark) => dark,
            None => fallback_dark,
        },
    }
}

/// What the window is told about its color scheme.
#[derive(Clone, Copy, Debug, PartialEq, Eq, Structural)]
pub enum WindowScheme {
    Default,
    ForceDark,
    ForceLight,
}

pub fn adw_color_scheme_for(scheme: ColorScheme) -> (r: WindowScheme)
    ensures
        r == (match scheme {
            ColorScheme::System => WindowScheme::Default,
            ColorScheme::Dark => WindowScheme::ForceDark,
            ColorScheme::Light => WindowScheme::ForceLight,
        }),
        r == WindowScheme::ForceDark <==> scheme == ColorScheme::Dark,
        r == WindowScheme::ForceLight <==> scheme == ColorScheme::Light,
{
    match scheme {
        ColorScheme::System => WindowScheme::Default,
        ColorScheme::Dark => WindowScheme::ForceDark,
        ColorScheme::Light => WindowScheme::ForceLight,
    }
}

/// What is known of the desktop's preference.
#[derive(Clone, Copy, Debug, PartialEq, Eq, Structural)]
pub struct SystemPreference {
    pub portal: PortalColorSchemePreference,
    pub system_prefers_dark: Option<bool>,
}

impl SystemPreference {
    /// A new preference of the system. Says whether it is another one, so that the
    /// terminals have to follow.
    pub fn sync_system_prefers_dark_change(&mut self, updated: Option<bool>) -> (r: bool)
        ensures
            r == (updated != old(self).system_prefers_dark),
            *final(self) == (SystemPreference { system_prefers_dark: updated, ..*old(self) }),
    {
        let unchanged = match (updated, self.system_prefers_dark) {
            (Some(a), Some(b)) => a == b,
            (None, None) => true,
            _ => false,
        };
        if unchanged {
            return false;
        }
        self.system_prefers_dark = updated;
        true
    }

    /// A new preference of the portal. Says whether the terminals have to follow.
    pub fn sync_portal_color_scheme_preference_change(
        &mut self,
        updated: PortalColorSchemePreference,
        gnome_prefers_dark: Option<bool>,
    ) -> (r: bool)
        ensures
            updated == old(self).portal ==> !r && *final(self) == *old(self),
            updated != old(self).portal ==> {
                &&& *final(self) == (SystemPreference {
                    portal: updated,
                    system_prefers_dark: prefers_dark(updated, gnome_prefers_dark),
                })
                &&& r == (final(self).system_prefers_dark != old(self).system_prefers_dark)
            },
    {
        if updated == self.portal {
            return false;
        }
        self.portal = updated;
        self.sync_system_prefers_dark_change(updated.resolved(gnome_prefers_dark))
    }
}

/// What the window does about a change of the settings.
#[derive(Clone, Copy, Debug, PartialEq, Eq, Structural)]
pub enum ConfigEffect {
    /// Take on the color schemes of these settings.
    ApplyAppearance(AppearanceConfig),
    /// Build the style rules anew from these settings.
    ReloadStyle(AppConfig),
    /// Show or hide the paths of the workspaces.
    ShowWorkspacePaths(bool),
}

/// What the window does to take settings on, given the settings that were in
/// force.
pub open spec fn adoption(from: AppConfig, to: AppConfig) -> Seq<ConfigEffect> {
    seq![ConfigEffect::ApplyAppearance(to.appearance)] + (if to.appearance.ui_scale
        != from.appearance.ui_scale {
        seq![ConfigEffect::ReloadStyle(to)]
    } else {
        Seq::empty()
    }) + (if to.appearance.show_workspace_path != from.appearance.show_workspace_path {
        seq![ConfigEffect::ShowWorkspacePaths(to.appearance.show_workspace_path)]
    } else {
        Seq::empty()
    })
}

fn adopt(from: &AppConfig, to: &AppConfig) -> (r: Vec<ConfigEffect>)
    ensures
        r@ == adoption(*from, *to),
{
    let mut effects: Vec<ConfigEffect> = Vec::new();
    effects.push(ConfigEffect::ApplyAppearance(to.appearance));
    if to.appearance.ui_scale != from.appearance.ui_scale {
        effects.push(ConfigEffect::ReloadStyle(*to));
    }
    if to.appearance.show_workspace_path != from.appearance.show_workspace_path {
        effects.push(ConfigEffect::ShowWorkspacePaths(to.appearance.show_workspace_path));
    }
    assert(effects@ =~= adoption(*from, *to));
    effects
}

/// What the window does when the settings were changed, before they are saved.
pub fn config_changed(previous: &AppConfig, updated: &AppConfig) -> (r: Vec<ConfigEffect>)
    ensures
        r@ == adoption(*previous, *updated),
{
    adopt(previous, updated)
}

/// What comes after saving the settings.
#[derive(Debug, PartialEq)]
pub struct ConfigSaved {
    /// The settings in force.
    pub config: AppConfig,
    /// What the window does to go back, if it has to.
    pub effects: Vec<ConfigEffect>,
    /// What the user is told, if the settings could not be saved.
    pub error: Option<String>,
}

/// What comes after saving the settings: settings that could not be saved are
/// taken back, in the window too, and the user is told.
pub fn config_saved(
    previous: &AppConfig,
    updated: &AppConfig,
    outcome: &Result<(), String>,
) -> (r: ConfigSaved)
    ensures
        match outcome {
            Ok(_) => r.config == *updated && r.effects@.len() == 0 && r.error is None,
            Err(cause) => r.config == *previous && r.effects@ == adoption(*updated, *previous) && (
            r.error matches Some(error) && error@ == "Failed to save Limux settings: "@ + cause@),
        },
{
    match outcome {
        Ok(_) => ConfigSaved { config: *updated, effects: Vec::new(), error: None },
        Err(cause) => {
            let mut error = "Failed to save Limux settings: ".to_owned();
            error.append(cause.as_str());
            ConfigSaved { config: *previous, effects: adopt(updated, previous), error: Some(error) }
        },
    }
}

/// Taking settings back undoes each thing that taking them on did, and nothing
/// else.
pub proof fn lemma_rollback_mirrors_change(previous: AppConfig, updated: AppConfig)
    ensures
        adoption(updated, previous).len() == adoption(previous, updated).len(),
        forall|i: int|
            0 <= i < adoption(previous, updated).len() ==> {
                match #[trigger] adoption(previous, updated)[i] {
                    ConfigEffect::ApplyAppearance(_) => adoption(updated, previous)[i]
                        == ConfigEffect::ApplyAppearance(previous.appearance),
                    ConfigEffect::ReloadStyle(_) => adoption(updated, previous)[i]
                        == ConfigEffect::ReloadStyle(previous),
                    ConfigEffect::ShowWorkspacePaths(_) => adoption(updated, previous)[i]
                        == ConfigEffect::ShowWorkspacePaths(
                        previous.appearance.show_workspace_path,
                    ),
                }
            },
{
}

/// Taking settings on brings their color schemes first. The style rules are built
/// anew exactly where the scale is another, the workspaces' paths are shown or
/// hidden exactly where that setting is another; each time as the new settings say.
pub proof fn lemma_adoption_does_what_changed(from: AppConfig, to: AppConfig)
    ensures
        ({
            let effects = adoption(from, to);
            let path = to.appearance.show_workspace_path;
            &&& effects.len() > 0
            &&& effects[0] == ConfigEffect::ApplyAppearance(to.appearance)
            &&& effects.contains(ConfigEffect::ReloadStyle(to)) <==> to.appearance.ui_scale
                != from.appearance.ui_scale
            &&& effects.contains(ConfigEffect::ShowWorkspacePaths(path)) <==> path
                != from.appearance.show_workspace_path
            &&& forall|i: int|
                0 <= i < effects.len() ==> {
                    match #[trigger] effects[i] {
                        ConfigEffect::ApplyAppearance(appearance) => i == 0,
                        ConfigEffect::ReloadStyle(config) => config == to,
                        ConfigEffect::ShowWorkspacePaths(shown) => shown == path,
                    }
                }
            &&& forall|i: int, j: int|
                0 <= i < j < effects.len() ==> #[trigger] effects[i] != #[trigger] effects[j]
        }),
{
    let effects = adoption(from, to);
    let scaled = to.appearance.ui_scale != from.appearance.ui_scale;
    if scaled {
        assert(effects[1] == ConfigEffect::ReloadStyle(to));
    }
    if to.appearance.show_workspace_path != from.appearance.show_workspace_path {
        let i: int = if scaled {
            2
        } else {
            1
        };
        assert(effects[i] == ConfigEffect::ShowWorkspacePaths(
            to.appearance.show_workspace_path,
        ));
    }
}

/// A portal that prefers dark or light has its way, whatever the desktop's own
/// setting says; one without a preference, or that has said nothing, leaves it to
/// that setting. The portal's two preferences exclude each other.
pub proof fn lemma_portal_goes_first(raw: u32, gnome: Option<bool>, other: Option<bool>)
    ensures
        portal_preference(raw) is Some <==> raw <= 2,
        portal_preference(raw) matches Some(portal) ==> {
            &&& raw == 1 ==> prefers_dark(portal, gnome) == Some(true)
            &&& raw == 2 ==> prefers_dark(portal, gnome) == Some(false)
            &&& raw == 0 ==> prefers_dark(portal, gnome) == gnome
            &&& gnome != other ==> ((prefers_dark(portal, gnome) == prefers_dark(portal, other))
                <==> raw != 0)
        },
        prefers_dark(PortalColorSchemePreference::Unknown, gnome) == gnome,
{
}

} // verus!
