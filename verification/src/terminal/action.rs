//! Actions that the terminal library asks of the host.
use vstd::prelude::*;
use vstd::string::*;

use crate::terminal::cursor::{MouseCursorUpdate, MouseShape, MouseVisibility};
use crate::terminal::surface::{SurfaceIdentity, SurfaceIdentityRegistry, SurfaceMap};
use crate::text::{decode_lossy, decode_or_empty, lossy_text, same_bytes, text_or_nothing};

verus! {

/// Vertical gap, in pixels, between the pointer and the preview of a link. About
/// the height of a large cursor.
pub const LINK_PREVIEW_CURSOR_Y_GAP: i32 = 14;

/// What an action is about.
#[derive(Clone, Copy, Debug, PartialEq, Eq, Structural)]
pub enum ActionTarget {
    App,
    /// A surface, by its address.
    Surface(usize),
    Other,
}

/// An action. Texts are bytes as the terminal library hands them over, `None`
/// where it hands over none.
#[derive(Debug, PartialEq)]
pub enum TerminalAction {
    Scrollbar { total: u64, offset: u64, len: u64 },
    Render,
    SetTitle(Option<Vec<u8>>),
    DesktopNotification { title: Option<Vec<u8>>, body: Option<Vec<u8>> },
    Pwd(Option<Vec<u8>>),
    MouseShape(MouseShape),
    MouseVisibility(MouseVisibility),
    MouseOverLink(Option<Vec<u8>>),
    OpenUrl(Option<Vec<u8>>),
    RingBell,
    ShowChildExited,
    ReloadConfig,
    /// An action that this host does not know.
    Unknown,
}

/// What the host does about an action.
#[derive(Debug, PartialEq)]
pub enum ActionEffect {
    Nothing,
    /// Move the scrollbar of a surface, without that being taken for a drag, and
    /// show or hide it.
    MoveScrollbar { surface: usize, offset: u64, total: u64, len: u64, visible: bool },
    QueueRender(usize),
    TitleChanged { surface: usize, title: String },
    Notify { surface: usize, title: String, body: String },
    PwdChanged { surface: usize, pwd: String },
    /// Change the cursor of a surface; at once on the toolkit's own thread, later
    /// on any other.
    UpdateCursor { identity: SurfaceIdentity, update: MouseCursorUpdate },
    ShowLink { surface: usize, url: String },
    HideLink(usize),
    /// Open an address at the next idle moment, if the surface is still there.
    OpenUrl { surface: usize, url: String, external: bool },
    Bell(usize),
    /// Close a surface at the next idle moment, if it is still there.
    ChildExited(usize),
    ReloadConfig(ActionTarget),
}

/// What an [`ActionEffect`] stands for.
pub ghost enum EffectView {
    Nothing,
    MoveScrollbar { surface: usize, offset: u64, total: u64, len: u64, visible: bool },
    QueueRender(usize),
    TitleChanged { surface: usize, title: Seq<char> },
    Notify { surface: usize, title: Seq<char>, body: Seq<char> },
    PwdChanged { surface: usize, pwd: Seq<char> },
    UpdateCursor { identity: SurfaceIdentity, update: MouseCursorUpdate },
    ShowLink { surface: usize, url: Seq<char> },
    HideLink(usize),
    OpenUrl { surface: usize, url: Seq<char>, external: bool },
    Bell(usize),
    ChildExited(usize),
    ReloadConfig(ActionTarget),
}

impl View for ActionEffect {
    type V = EffectView;

    open spec fn view(&self) -> EffectView {
        match self {
            ActionEffect::Nothing => EffectView::Nothing,
            ActionEffect::MoveScrollbar { surface, offset, total, len, visible } =>
                EffectView::MoveScrollbar {
                surface: *surface,
                offset: *offset,
                total: *total,
                len: *len,
                visible: *visible,
            },
            ActionEffect::QueueRender(surface) => EffectView::QueueRender(*surface),
            ActionEffect::TitleChanged { surface, title } => EffectView::TitleChanged {
                surface: *surface,
                title: title@,
            },
            ActionEffect::Notify { surface, title, body } => EffectView::Notify {
                surface: *surface,
                title: title@,
                body: body@,
            },
            ActionEffect::PwdChanged { surface, pwd } => EffectView::PwdChanged {
                surface: *surface,
                pwd: pwd@,
            },
            ActionEffect::UpdateCursor { identity, update } => EffectView::UpdateCursor {
                identity: *identity,
                update: *update,
            },
            ActionEffect::ShowLink { surface, url } => EffectView::ShowLink {
                surface: *surface,
                url: url@,
            },
            ActionEffect::HideLink(surface) => EffectView::HideLink(*surface),
            ActionEffect::OpenUrl { surface, url, external } => EffectView::OpenUrl {
                surface: *surface,
                url: url@,
                external: *external,
            },
            ActionEffect::Bell(surface) => EffectView::Bell(*surface),
            ActionEffect::ChildExited(surface) => EffectView::ChildExited(*surface),
            ActionEffect::ReloadConfig(target) => EffectView::ReloadConfig(*target),
        }
    }
}

/// Text that was handed over, nothing where there is none or it is not valid.
pub open spec fn handed_text(bytes: Option<Vec<u8>>) -> Seq<char> {
    match bytes {
        Some(bytes) => text_or_nothing(bytes@),
        None => Seq::empty(),
    }
}

/// The address that was handed over, if it is not empty.
pub open spec fn handed_url(bytes: Option<Vec<u8>>) -> Option<Seq<char>> {
    match bytes {
        Some(bytes) => if bytes@.len() == 0 {
            None
        } else {
            Some(lossy_text(bytes@))
        },
        None => None,
    }
}

/// What an action about a surface means. Nothing happens for a surface that is
/// not shown, except that addresses and exits are looked at again later.
pub open spec fn surface_effect(
    surfaces: SurfaceMap,
    registry: SurfaceIdentityRegistry,
    scrollbar_enabled: bool,
    surface: usize,
    action: TerminalAction,
) -> EffectView {
    let shown = surfaces.live().contains_key(surface);
    match action {
        TerminalAction::Scrollbar { total, offset, len } => if shown {
            EffectView::MoveScrollbar {
                surface,
                offset,
                total,
                len,
                visible: scrollbar_enabled && total > len,
            }
        } else {
            EffectView::Nothing
        },
        TerminalAction::Render => if shown {
            EffectView::QueueRender(surface)
        } else {
            EffectView::Nothing
        },
        TerminalAction::SetTitle(title) => if shown && title is Some {
            EffectView::TitleChanged { surface, title: handed_text(title) }
        } else {
            EffectView::Nothing
        },
        TerminalAction::DesktopNotification { title, body } => if shown {
            EffectView::Notify { surface, title: handed_text(title), body: handed_text(body) }
        } else {
            EffectView::Nothing
        },
        TerminalAction::Pwd(pwd) => if shown && pwd is Some {
            EffectView::PwdChanged { surface, pwd: handed_text(pwd) }
        } else {
            EffectView::Nothing
        },
        TerminalAction::MouseShape(shape) => cursor_effect(
            registry,
            surface,
            MouseCursorUpdate::Shape(shape),
        ),
        TerminalAction::MouseVisibility(visibility) => cursor_effect(
            registry,
            surface,
            MouseCursorUpdate::Visibility(visibility),
        ),
        TerminalAction::MouseOverLink(url) => if !shown {
            EffectView::Nothing
        } else {
            match handed_url(url) {
                Some(url) => EffectView::ShowLink { surface, url },
                None => EffectView::HideLink(surface),
            }
        },
        TerminalAction::OpenUrl(url) => match handed_url(url) {
            Some(url) => EffectView::OpenUrl {
                surface,
                url,
                external: shown && surfaces.live()[surface].open_url_external,
            },
            None => EffectView::Nothing,
        },
        TerminalAction::RingBell => if shown {
            EffectView::Bell(surface)
        } else {
            EffectView::Nothing
        },
        TerminalAction::ShowChildExited => EffectView::ChildExited(surface),
        TerminalAction::ReloadConfig => EffectView::ReloadConfig(ActionTarget::Surface(surface)),
        TerminalAction::Unknown => EffectView::Nothing,
    }
}

/// The update of a cursor, addressed to the surface that lives there now.
pub open spec fn cursor_effect(
    registry: SurfaceIdentityRegistry,
    surface: usize,
    update: MouseCursorUpdate,
) -> EffectView {
    if registry.live().contains_key(surface) {
        EffectView::UpdateCursor {
            identity: SurfaceIdentity {
                surface_key: surface,
                generation: registry.live()[surface],
            },
            update,
        }
    } else {
        EffectView::Nothing
    }
}

fn text_of(bytes: &Option<Vec<u8>>) -> (r: String)
    ensures
        r@ == handed_text(*bytes),
{
    match bytes {
        Some(bytes) => decode_or_empty(bytes.as_slice()),
        None => String::new(),
    }
}

/// The address in an action, if it is not empty.
pub fn ghostty_open_url_to_string(url: &Option<Vec<u8>>) -> (r: Option<String>)
    ensures
        handed_url(*url) == (match r {
            Some(url) => Some(url@),
            None => None,
        }),
{
    match url {
        Some(bytes) => if bytes.len() == 0 {
            None
        } else {
            Some(decode_lossy(bytes.as_slice()))
        },
        None => None,
    }
}

/// Addresses a cursor update to the surface that lives at an address now.
pub fn dispatch_mouse_cursor_update(
    registry: &SurfaceIdentityRegistry,
    surface: usize,
    update: MouseCursorUpdate,
) -> (r: ActionEffect)
    ensures
        r@ == cursor_effect(*registry, surface, update),
{
    match registry.current(surface) {
        Some(identity) => ActionEffect::UpdateCursor { identity, update },
        None => ActionEffect::Nothing,
    }
}

fn ghostty_surface_action(
    surfaces: &SurfaceMap,
    registry: &SurfaceIdentityRegistry,
    scrollbar_enabled: bool,
    surface: usize,
    action: &TerminalAction,
) -> (r: ActionEffect)
    ensures
        r@ == surface_effect(*surfaces, *registry, scrollbar_enabled, surface, *action),
{
    let entry = surfaces.get(surface);
    let shown = entry.is_some();
    match action {
        TerminalAction::Scrollbar { total, offset, len } => {
            if shown {
                ActionEffect::MoveScrollbar {
                    surface,
                    offset: *offset,
                    total: *total,
                    len: *len,
                    visible: scrollbar_enabled && *total > *len,
                }
            } else {
                ActionEffect::Nothing
            }
        },
        TerminalAction::Render => {
            if shown {
                ActionEffect::QueueRender(surface)
            } else {
                ActionEffect::Nothing
            }
        },
        TerminalAction::SetTitle(title) => {
            if shown && title.is_some() {
                ActionEffect::TitleChanged { surface, title: text_of(title) }
            } else {
                ActionEffect::Nothing
            }
        },
        TerminalAction::DesktopNotification { title, body } => {
            if shown {
                ActionEffect::Notify { surface, title: text_of(title), body: text_of(body) }
            } else {
                ActionEffect::Nothing
            }
        },
        TerminalAction::Pwd(pwd) => {
            if shown && pwd.is_some() {
                ActionEffect::PwdChanged { surface, pwd: text_of(pwd) }
            } else {
                ActionEffect::Nothing
            }
        },
        TerminalAction::MouseShape(shape) => dispatch_mouse_cursor_update(
            registry,
            surface,
            MouseCursorUpdate::Shape(*shape),
        ),
        TerminalAction::MouseVisibility(visibility) => dispatch_mouse_cursor_update(
            registry,
            surface,
            MouseCursorUpdate::Visibility(*visibility),
        ),
        TerminalAction::MouseOverLink(url) => {
            if !shown {
                ActionEffect::Nothing
            } else {
                match ghostty_open_url_to_string(url) {
                    Some(url) => ActionEffect::ShowLink { surface, url },
                    None => ActionEffect::HideLink(surface),
                }
            }
        },
        TerminalAction::OpenUrl(url) => match ghostty_open_url_to_string(url) {
            Some(url) => {
                let external = match entry {
                    Some(entry) => entry.open_url_external,
                    None => false,
                };
                ActionEffect::OpenUrl { surface, url, external }
            },
            None => ActionEffect::Nothing,
        },
        TerminalAction::RingBell => {
            if shown {
                ActionEffect::Bell(surface)
            } else {
                ActionEffect::Nothing
            }
        },
        TerminalAction::ShowChildExited => ActionEffect::ChildExited(surface),
        TerminalAction::ReloadConfig => ActionEffect::ReloadConfig(ActionTarget::Surface(surface)),
        TerminalAction::Unknown => ActionEffect::Nothing,
    }
}

/// What the host does about an action, and whether it takes the action on. It
/// does for every action that it knows; but for a reload of the configuration,
/// only those about a surface have an effect.
pub fn ghostty_action(
    surfaces: &SurfaceMap,
    registry: &SurfaceIdentityRegistry,
    scrollbar_enabled: bool,
    target: ActionTarget,
    action: &TerminalAction,
) -> (r: (bool, ActionEffect))
    ensures
        r.0 == (*action !is Unknown),
        r.1@ == (match target {
            ActionTarget::Surface(surface) => surface_effect(
                *surfaces,
                *registry,
                scrollbar_enabled,
                surface,
                *action,
            ),
            _ => if *action is ReloadConfig {
                EffectView::ReloadConfig(target)
            } else {
                EffectView::Nothing
            },
        }),
{
    let handled = match action {
        TerminalAction::Unknown => false,
        _ => true,
    };
    let effect = match target {
        ActionTarget::Surface(surface) => ghostty_surface_action(
            surfaces,
            registry,
            scrollbar_enabled,
            surface,
            action,
        ),
        _ => match action {
            TerminalAction::ReloadConfig => ActionEffect::ReloadConfig(target),
            _ => ActionEffect::Nothing,
        },
    };
    (handled, effect)
}

/// Where the preview of a link points: above the pointer, as far as the
/// coordinates reach.
pub fn link_preview_position(x: i32, y: i32) -> (r: (i32, i32))
    ensures
        r.0 == x,
        r.1 == (if y - LINK_PREVIEW_CURSOR_Y_GAP < i32::MIN {
            i32::MIN as int
        } else {
            y - LINK_PREVIEW_CURSOR_Y_GAP
        }),
        r.1 <= y,
        y >= 0 ==> y - r.1 == LINK_PREVIEW_CURSOR_Y_GAP,
{
    if y < i32::MIN + LINK_PREVIEW_CURSOR_Y_GAP {
        (x, i32::MIN)
    } else {
        (x, y - LINK_PREVIEW_CURSOR_Y_GAP)
    }
}

/// Whether a part of the configuration allows scrollbars: unless it says `never`.
pub fn load_scrollbar_enabled(loaded: bool, value: Option<&[u8]>) -> (r: bool)
    ensures
        r == (!loaded || match value {
            Some(value) => value@ != "never".spec_bytes(),
            None => true,
        }),
{
    if !loaded {
        return true;
    }
    match value {
        Some(value) => !same_bytes(value, "never".as_bytes()),
        None => true,
    }
}

/// The surface that the host turns to.
pub open spec fn surface_in(effect: EffectView) -> Option<usize> {
    match effect {
        EffectView::Nothing => None,
        EffectView::MoveScrollbar { surface, .. } => Some(surface),
        EffectView::QueueRender(surface) => Some(surface),
        EffectView::TitleChanged { surface, .. } => Some(surface),
        EffectView::Notify { surface, .. } => Some(surface),
        EffectView::PwdChanged { surface, .. } => Some(surface),
        EffectView::UpdateCursor { identity, .. } => Some(identity.surface_key),
        EffectView::ShowLink { surface, .. } => Some(surface),
        EffectView::HideLink(surface) => Some(surface),
        EffectView::OpenUrl { surface, .. } => Some(surface),
        EffectView::Bell(surface) => Some(surface),
        EffectView::ChildExited(surface) => Some(surface),
        EffectView::ReloadConfig(ActionTarget::Surface(surface)) => Some(surface),
        EffectView::ReloadConfig(_) => None,
    }
}

/// An action about a surface touches no other surface. On one that is not shown
/// nothing is changed: what may still come of an action there is an address to
/// open, an exit or a reload to look at later, or a cursor for what lives there now.
pub proof fn lemma_action_stays_with_its_surface(
    surfaces: SurfaceMap,
    registry: SurfaceIdentityRegistry,
    scrollbar_enabled: bool,
    surface: usize,
    action: TerminalAction,
)
    ensures
        ({
            let effect = surface_effect(surfaces, registry, scrollbar_enabled, surface, action);
            &&& effect is Nothing || surface_in(effect) == Some(surface)
            &&& !surfaces.live().contains_key(surface) ==> effect is Nothing || effect is OpenUrl
                || effect is ChildExited || effect is ReloadConfig || effect is UpdateCursor
            &&& effect matches EffectView::OpenUrl { external, .. } ==> (external
                ==> surfaces.live().contains_key(surface)
                && surfaces.live()[surface].open_url_external)
            &&& effect matches EffectView::UpdateCursor { identity, .. } ==> {
                &&& registry.live().contains_key(surface)
                &&& identity.generation == registry.live()[surface]
            }
        }),
{
}

/// On a surface that is shown every action is passed on for what it is: numbers and
/// texts arrive as they were handed over, and the scrollbar shows exactly where
/// scrollbars are wanted and there is more than fits.
pub proof fn lemma_action_is_passed_on(
    surfaces: SurfaceMap,
    registry: SurfaceIdentityRegistry,
    scrollbar_enabled: bool,
    surface: usize,
    action: TerminalAction,
)
    requires
        surfaces.live().contains_key(surface),
    ensures
        ({
            let effect = surface_effect(surfaces, registry, scrollbar_enabled, surface, action);
            match action {
                TerminalAction::Scrollbar { total, offset, len } => {
                    &&& effect matches EffectView::MoveScrollbar {
                        offset: o,
                        total: t,
                        len: l,
                        visible,
                        ..
                    }
                    &&& o == offset && t == total && l == len
                    &&& visible <==> scrollbar_enabled && total > len
                },
                TerminalAction::Render => effect is QueueRender,
                TerminalAction::SetTitle(Some(bytes)) => effect matches EffectView::TitleChanged {
                    title,
                    ..
                } && title == text_or_nothing(bytes@),
                TerminalAction::SetTitle(None) => effect is Nothing,
                TerminalAction::DesktopNotification { title, body } => {
                    &&& effect matches EffectView::Notify { title: t, body: b, .. }
                    &&& title matches Some(bytes) ==> t == text_or_nothing(bytes@)
                    &&& title is None ==> t.len() == 0
                    &&& body matches Some(bytes) ==> b == text_or_nothing(bytes@)
                    &&& body is None ==> b.len() == 0
                },
                TerminalAction::Pwd(Some(bytes)) => effect matches EffectView::PwdChanged {
                    pwd,
                    ..
                } && pwd == text_or_nothing(bytes@),
                TerminalAction::Pwd(None) => effect is Nothing,
                TerminalAction::MouseShape(shape) => effect is Nothing || (effect
                    matches EffectView::UpdateCursor { update, .. } && update
                    == MouseCursorUpdate::Shape(shape)),
                TerminalAction::MouseVisibility(visibility) => effect is Nothing || (effect
                    matches EffectView::UpdateCursor { update, .. } && update
                    == MouseCursorUpdate::Visibility(visibility)),
                TerminalAction::MouseOverLink(url) => {
                    &&& effect is ShowLink <==> (url matches Some(bytes) && bytes@.len() > 0)
                    &&& effect is HideLink <==> !(effect is ShowLink)
                    &&& effect matches EffectView::ShowLink { url: shown, .. } ==> (url matches Some(
                        bytes,
                    ) && shown == lossy_text(bytes@))
                },
                TerminalAction::OpenUrl(url) => {
                    &&& effect is OpenUrl <==> (url matches Some(bytes) && bytes@.len() > 0)
                    &&& effect is Nothing <==> !(effect is OpenUrl)
                    &&& effect matches EffectView::OpenUrl { url: opened, external, .. } ==> (url
                        matches Some(bytes) && opened == lossy_text(bytes@)) && external
                        == surfaces.live()[surface].open_url_external
                },
                TerminalAction::RingBell => effect is Bell,
                TerminalAction::ShowChildExited => effect is ChildExited,
                TerminalAction::ReloadConfig => effect is ReloadConfig,
                TerminalAction::Unknown => effect is Nothing,
            }
        }),
        registry.live().contains_key(surface) && (action is MouseShape
            || action is MouseVisibility) ==> !(surface_effect(
            surfaces,
            registry,
            scrollbar_enabled,
            surface,
            action,
        ) is Nothing),
{
}

} // verus!
