//! The life of a terminal widget: what the host does at each event of the
//! toolkit.
use vstd::prelude::*;
use vstd::string::*;

use crate::float_bits::{double_below, double_finite, double_rank, DOUBLE_INFINITY, DOUBLE_SIGN};
use crate::terminal::keys::KeyMods;
use crate::text::contains_char;

verus! {

/// 1.0 in double precision.
pub const FULL_OPACITY: u64 = 0x3FF0_0000_0000_0000;

/// Size in physical pixels and scale of an allocation in logical pixels; none for
/// an allocation or scale that is not positive, or where a product is too large.
pub open spec fn physical_size(width: i32, height: i32, scale: i32) -> Option<(u32, u32, u32)> {
    if width > 0 && height > 0 && scale > 0 && width * scale <= u32::MAX && height * scale
        <= u32::MAX {
        Some(((width * scale) as u32, (height * scale) as u32, scale as u32))
    } else {
        None
    }
}

pub fn physical_size_for_allocation(
    logical_width: i32,
    logical_height: i32,
    scale_factor: i32,
) -> (r: Option<(u32, u32, u32)>)
    ensures
        r == physical_size(logical_width, logical_height, scale_factor),
{
    if logical_width <= 0 || logical_height <= 0 || scale_factor <= 0 {
        return None;
    }
    let scale: u32 = scale_factor as u32;
    match (logical_width as u32).checked_mul(scale) {
        None => None,
        Some(width) => match (logical_height as u32).checked_mul(scale) {
            None => None,
            Some(height) => Some((width, height, scale)),
        },
    }
}

/// A physical size is the allocation times the scale.
pub proof fn lemma_physical_size(width: i32, height: i32, scale: i32)
    requires
        physical_size(width, height, scale) is Some,
    ensures
        ({
            let (w, h, s) = physical_size(width, height, scale)->Some_0;
            w == width * scale && h == height * scale && s == scale
        }),
{
    assert(width * scale > 0 && height * scale > 0) by (nonlinear_arith)
        requires
            width > 0,
            height > 0,
            scale > 0,
    ;
}

/// What a surface and its widget are told when the display is to be refreshed.
#[derive(Clone, Copy, Debug, PartialEq, Eq, Structural)]
pub enum DisplayStep {
    /// The surface's display is there again.
    DisplayRealized(usize),
    /// The scale of both axes.
    SetContentScale { surface: usize, scale: u32 },
    /// The size in physical pixels.
    SetSize { surface: usize, width: u32, height: u32 },
    Refresh(usize),
    QueueRender,
}

/// How the display of a surface is refreshed: it is told its scale and size where
/// the allocation has a physical size, and drawn again in any case.
pub open spec fn refresh_steps(surface: usize, width: i32, height: i32, scale: i32) -> Seq<
    DisplayStep,
> {
    (match physical_size(width, height, scale) {
        Some((width, height, scale)) => seq![
            DisplayStep::SetContentScale { surface, scale },
            DisplayStep::SetSize { surface, width, height },
        ],
        None => Seq::empty(),
    }) + seq![DisplayStep::Refresh(surface), DisplayStep::QueueRender]
}

/// How the display of a surface is refreshed, given the widget's allocation.
pub fn refresh_surface_display(surface: usize, width: i32, height: i32, scale: i32) -> (r: Vec<
    DisplayStep,
>)
    ensures
        r@ == refresh_steps(surface, width, height, scale),
{
    let mut steps: Vec<DisplayStep> = Vec::new();
    if let Some((width, height, scale)) = physical_size_for_allocation(width, height, scale) {
        steps.push(DisplayStep::SetContentScale { surface, scale });
        steps.push(DisplayStep::SetSize { surface, width, height });
    }
    steps.push(DisplayStep::Refresh(surface));
    steps.push(DisplayStep::QueueRender);
    assert(steps@ =~= refresh_steps(surface, width, height, scale));
    steps
}

/// How the display of a surface is refreshed that may have been without one. A
/// realized widget is made current first; `drawable` says whether that went without
/// an error, and is none for a widget that is not realized. Only then is the surface
/// told that its display is there.
pub fn refresh_realized_surface_display(
    surface: usize,
    drawable: Option<bool>,
    width: i32,
    height: i32,
    scale: i32,
) -> (r: Vec<DisplayStep>)
    ensures
        r@ == (if drawable == Some(true) {
            seq![DisplayStep::DisplayRealized(surface)]
        } else {
            Seq::empty()
        }) + refresh_steps(surface, width, height, scale),
{
    let mut steps: Vec<DisplayStep> = Vec::new();
    if let Some(drawable) = drawable {
        if drawable {
            steps.push(DisplayStep::DisplayRealized(surface));
        }
    }
    let ghost before = steps@;
    let mut refresh = refresh_surface_display(surface, width, height, scale);
    steps.append(&mut refresh);
    assert(steps@ =~= before + refresh_steps(surface, width, height, scale));
    assert(before =~= (if drawable == Some(true) {
        seq![DisplayStep::DisplayRealized(surface)]
    } else {
        Seq::empty()
    }));
    steps
}

/// What becomes of files that are dropped on a terminal: the text made of their
/// paths is sent to the surface. None, and the drop is refused, without a surface
/// or without such a text.
pub fn dropped_files(surface: Option<usize>, text: Option<Vec<u8>>) -> (r: Option<(usize, Vec<u8>)>)
    ensures
        r == (match (surface, text) {
            (Some(surface), Some(text)) => Some((surface, text)),
            _ => None,
        }),
{
    match (surface, text) {
        (Some(surface), Some(text)) => Some((surface, text)),
        _ => None,
    }
}

/// Whether a surface is to be drawn dark.
#[derive(Clone, Copy, Debug, PartialEq, Eq, Structural)]
pub enum TerminalScheme {
    Dark,
    Light,
}

pub fn ghostty_color_scheme_for_dark_mode(dark: bool) -> (r: TerminalScheme)
    ensures
        r == (if dark {
            TerminalScheme::Dark
        } else {
            TerminalScheme::Light
        }),
{
    if dark {
        TerminalScheme::Dark
    } else {
        TerminalScheme::Light
    }
}

/// An opacity between 0 and 1; 1 for what is no finite number.
pub open spec fn bounded_opacity(bits: u64) -> u64 {
    if !double_finite(bits) {
        FULL_OPACITY
    } else if double_rank(bits) < 0 {
        0
    } else if double_rank(bits) > double_rank(FULL_OPACITY) {
        FULL_OPACITY
    } else {
        bits
    }
}

pub fn bound_opacity(bits: u64) -> (r: u64)
    ensures
        r == bounded_opacity(bits),
{
    if bits % DOUBLE_SIGN >= DOUBLE_INFINITY {
        FULL_OPACITY
    } else if double_below(bits, 0) {
        0
    } else if double_below(FULL_OPACITY, bits) {
        FULL_OPACITY
    } else {
        bits
    }
}

/// The background opacity of the terminals, as a double-precision pattern: the
/// configured one, moved between 0 and 1, or 1 where none is configured.
pub fn load_background_opacity(configured: Option<u64>) -> (r: u64)
    ensures
        r == (match configured {
            Some(bits) => bounded_opacity(bits),
            None => FULL_OPACITY,
        }),
{
    match configured {
        Some(bits) => bound_opacity(bits),
        None => FULL_OPACITY,
    }
}

/// What a new surface is started with.
#[derive(Debug, PartialEq)]
pub struct SurfaceConfig {
    pub working_directory: Option<String>,
    pub env_vars: Vec<(String, String)>,
    pub command: Option<String>,
}

/// A text that can be handed to the terminal library: one without NUL.
pub open spec fn passable(s: Seq<char>) -> bool {
    !s.contains('\0')
}

/// The variables that can be handed over, in their order.
pub open spec fn passable_vars(vars: Seq<(String, String)>) -> Seq<(Seq<char>, Seq<char>)>
    decreases vars.len(),
{
    if vars.len() == 0 {
        Seq::empty()
    } else {
        let rest = passable_vars(vars.drop_last());
        let (key, value) = vars.last();
        if passable(key@) && passable(value@) {
            rest.push((key@, value@))
        } else {
            rest
        }
    }
}

/// The contents of a list of variables.
pub open spec fn var_texts(vars: Seq<(String, String)>) -> Seq<(Seq<char>, Seq<char>)> {
    Seq::new(vars.len(), |i: int| (vars[i].0@, vars[i].1@))
}

fn passable_text(s: &Option<String>) -> (r: Option<String>)
    ensures
        match s {
            Some(s) => if passable(s@) {
                r matches Some(t) && t@ == s@
            } else {
                r is None
            },
            None => r is None,
        },
{
    match s {
        Some(s) => if contains_char(s.as_str(), '\0') {
            None
        } else {
            Some(s.clone())
        },
        None => None,
    }
}

/// What a new surface is started with: directory, variables and command as far as
/// they can be handed over.
pub fn surface_config(
    working_directory: &Option<String>,
    extra_env: &Vec<(String, String)>,
    startup_command: &Option<String>,
) -> (r: SurfaceConfig)
    ensures
        match working_directory {
            Some(s) => if passable(s@) {
                r.working_directory matches Some(t) && t@ == s@
            } else {
                r.working_directory is None
            },
            None => r.working_directory is None,
        },
        match startup_command {
            Some(s) => if passable(s@) {
                r.command matches Some(t) && t@ == s@
            } else {
                r.command is None
            },
            None => r.command is None,
        },
        var_texts(r.env_vars@) == passable_vars(extra_env@),
{
    let mut env_vars: Vec<(String, String)> = Vec::new();
    assert(var_texts(env_vars@) =~= passable_vars(extra_env@.take(0)));
    let mut i: usize = 0;
    while i < extra_env.len()
        invariant
            i <= extra_env@.len(),
            var_texts(env_vars@) == passable_vars(extra_env@.take(i as int)),
        decreases extra_env@.len() - i,
    {
        let var = &extra_env[i];
        let ghost before = env_vars@;
        assert(extra_env@.take(i + 1).drop_last() =~= extra_env@.take(i as int));
        if !contains_char(var.0.as_str(), '\0') && !contains_char(var.1.as_str(), '\0') {
            env_vars.push((var.0.clone(), var.1.clone()));
            assert(var_texts(env_vars@) =~= var_texts(before).push((var.0@, var.1@)));
        }
        i += 1;
    }
    assert(extra_env@.take(i as int) =~= extra_env@);
    SurfaceConfig {
        working_directory: passable_text(working_directory),
        env_vars,
        command: passable_text(startup_command),
    }
}

/// A mouse button as the terminal library names it.
#[derive(Clone, Copy, Debug, PartialEq, Eq, Structural)]
pub enum MouseButton {
    Left,
    Middle,
    Unknown,
}

/// The toolkit's number of the right mouse button.
pub const RIGHT_BUTTON: u32 = 3;

pub open spec fn button_named(button: u32) -> MouseButton {
    if button == 1 {
        MouseButton::Left
    } else if button == 2 {
        MouseButton::Middle
    } else {
        MouseButton::Unknown
    }
}

fn mouse_button(button: u32) -> (r: MouseButton)
    ensures
        r == button_named(button),
{
    match button {
        1 => MouseButton::Left,
        2 => MouseButton::Middle,
        _ => MouseButton::Unknown,
    }
}

/// What the host keeps of a terminal widget.
#[derive(Clone, Copy, Debug, PartialEq, Eq, Structural)]
pub struct TerminalState {
    /// Address of the surface, once it exists.
    pub surface: Option<usize>,
    /// The terminal had the focus last.
    pub had_focus: bool,
    /// A font size was saved.
    pub saved_font_size: bool,
}

/// An event of the toolkit.
#[derive(Clone, Copy, Debug, PartialEq, Eq, Structural)]
pub enum TerminalEvent {
    Mapped,
    /// The widget has a display; `gl_error` says whether drawing on it failed.
    Realize { gl_error: bool },
    /// The surface that was asked for, if it could be made, and the allocation.
    SurfaceMade { surface: Option<usize>, width: i32, height: i32, scale: i32 },
    Render,
    Resize { width: i32, height: i32 },
    /// The scrollbar was moved; `syncing` if the host itself moved it.
    ScrollbarMoved { row: usize, syncing: bool },
    MousePressed { button: u32, mods: KeyMods },
    MouseReleased { button: u32, mods: KeyMods },
    RightClicked { mods: KeyMods },
    /// `hover_focus` is the user's setting.
    PointerEntered { hover_focus: bool, mods: KeyMods },
    /// `preview` says whether the preview of a link is open.
    PointerMoved { x: i32, y: i32, preview: bool, mods: KeyMods },
    Scrolled { mods: KeyMods },
    FocusEntered,
    FocusLeft,
    Unrealize,
    Destroyed,
}

/// What the host does at an event.
#[derive(Clone, Copy, Debug, PartialEq, Eq, Structural)]
pub enum TerminalEffect {
    QueueRender,
    QueueRenderWhenIdle,
    /// Make the widget current if it is realized, and do what
    /// `refresh_realized_surface_display` gives.
    RefreshRealized(usize),
    /// Do what `refresh_surface_display` gives.
    RefreshDisplay(usize),
    ReportGlError,
    MakeSurface,
    ReportNoSurface,
    RegisterSurface(usize),
    SetColorScheme(usize),
    ApplySavedFontSize(usize),
    ShowSurface(usize),
    SetSurfaceFocus { surface: usize, focused: bool },
    GrabFocus,
    GrabFocusWhenIdle,
    Draw(usize),
    ScrollToRow { surface: usize, row: usize },
    MousePosition { surface: usize, mods: KeyMods },
    OpenLinksOutside(bool),
    MouseButton { surface: usize, pressed: bool, button: MouseButton, mods: KeyMods },
    ShowContextMenu { target: Option<usize>, mods: KeyMods },
    MovePreview { x: i32, y: i32 },
    /// Both axes are negated: the toolkit and the terminal count the other way.
    MouseScroll { surface: usize, mods: KeyMods },
    InputMethodFocus(bool),
    DisplayUnrealized(usize),
    ReleaseInputMethods,
    ForgetSurface(usize),
    FreeSurface(usize),
    /// Drop the clipboard context that was made for the surface, if there is one.
    DropClipboardContext,
}

/// The position above the pointer where the preview of a link points.
pub open spec fn preview_y(y: i32) -> i32 {
    let gap = crate::terminal::action::LINK_PREVIEW_CURSOR_Y_GAP;
    if y - gap < i32::MIN {
        i32::MIN
    } else {
        (y - gap) as i32
    }
}

impl TerminalState {
    /// The state after an event.
    pub open spec fn after(self, event: TerminalEvent) -> TerminalState {
        match event {
            TerminalEvent::SurfaceMade { surface: Some(surface), .. } => TerminalState {
                surface: Some(surface),
                had_focus: true,
                ..self
            },
            TerminalEvent::MousePressed { .. } => TerminalState { had_focus: true, ..self },
            TerminalEvent::PointerEntered { hover_focus: true, .. } => TerminalState {
                had_focus: true,
                ..self
            },
            TerminalEvent::FocusEntered => TerminalState { had_focus: true, ..self },
            TerminalEvent::FocusLeft => TerminalState { had_focus: false, ..self },
            TerminalEvent::Destroyed => TerminalState { surface: None, ..self },
            _ => self,
        }
    }

    /// A mouse button on a surface: links are opened outside if the control key
    /// is held, for as long as the event takes.
    pub open spec fn button_effects(
        self,
        pressed: bool,
        button: u32,
        mods: KeyMods,
    ) -> Seq<TerminalEffect> {
        match self.surface {
            Some(surface) => if button == RIGHT_BUTTON {
                Seq::empty()
            } else {
                seq![
                    TerminalEffect::MousePosition { surface, mods },
                    TerminalEffect::OpenLinksOutside(mods.ctrl),
                    TerminalEffect::MouseButton {
                        surface,
                        pressed,
                        button: button_named(button),
                        mods,
                    },
                    TerminalEffect::OpenLinksOutside(false),
                ]
            },
            None => Seq::empty(),
        }
    }

    /// What the host does at an event.
    pub open spec fn effects(self, event: TerminalEvent) -> Seq<TerminalEffect> {
        let position = |mods: KeyMods|
            match self.surface {
                Some(surface) => seq![TerminalEffect::MousePosition { surface, mods }],
                None => Seq::empty(),
            };
        match event {
            TerminalEvent::Mapped => match self.surface {
                Some(surface) => seq![TerminalEffect::RefreshRealized(surface)],
                None => seq![TerminalEffect::QueueRender],
            },
            TerminalEvent::Realize { gl_error } => if gl_error {
                seq![TerminalEffect::ReportGlError]
            } else {
                match self.surface {
                    Some(surface) => seq![
                        TerminalEffect::RefreshRealized(surface),
                        TerminalEffect::QueueRenderWhenIdle,
                    ],
                    None => seq![TerminalEffect::MakeSurface],
                }
            },
            TerminalEvent::SurfaceMade { surface, width, height, scale } => match surface {
                Some(surface) => seq![
                    TerminalEffect::RegisterSurface(surface),
                    TerminalEffect::SetColorScheme(surface),
                ] + (if self.saved_font_size {
                    seq![TerminalEffect::ApplySavedFontSize(surface)]
                } else {
                    Seq::empty()
                }) + (if physical_size(width, height, scale) is Some {
                    seq![TerminalEffect::RefreshDisplay(surface)]
                } else {
                    Seq::empty()
                }) + seq![
                    TerminalEffect::ShowSurface(surface),
                    TerminalEffect::SetSurfaceFocus { surface, focused: true },
                    TerminalEffect::GrabFocus,
                ],
                None => seq![TerminalEffect::DropClipboardContext, TerminalEffect::ReportNoSurface],
            },
            TerminalEvent::Render => match self.surface {
                Some(surface) => seq![TerminalEffect::Draw(surface)],
                None => Seq::empty(),
            },
            TerminalEvent::Resize { width, height } => (match self.surface {
                Some(surface) => if width != 0 && height != 0 {
                    seq![TerminalEffect::RefreshDisplay(surface)]
                } else {
                    Seq::empty()
                },
                None => Seq::empty(),
            }) + (if self.had_focus {
                seq![TerminalEffect::GrabFocusWhenIdle]
            } else {
                Seq::empty()
            }),
            TerminalEvent::ScrollbarMoved { row, syncing } => match self.surface {
                Some(surface) => if syncing {
                    Seq::empty()
                } else {
                    seq![TerminalEffect::ScrollToRow { surface, row }]
                },
                None => Seq::empty(),
            },
            TerminalEvent::MousePressed { button, mods } => seq![TerminalEffect::GrabFocus]
                + self.button_effects(true, button, mods),
            TerminalEvent::MouseReleased { button, mods } => self.button_effects(
                false,
                button,
                mods,
            ),
            TerminalEvent::RightClicked { mods } => seq![
                TerminalEffect::ShowContextMenu { target: self.surface, mods },
            ],
            TerminalEvent::PointerEntered { hover_focus, mods } => (if hover_focus {
                seq![TerminalEffect::GrabFocus]
            } else {
                Seq::empty()
            }) + position(mods),
            TerminalEvent::PointerMoved { x, y, preview, mods } => (if preview {
                seq![TerminalEffect::MovePreview { x, y: preview_y(y) }]
            } else {
                Seq::empty()
            }) + position(mods),
            TerminalEvent::Scrolled { mods } => match self.surface {
                Some(surface) => seq![TerminalEffect::MouseScroll { surface, mods }],
                None => Seq::empty(),
            },
            TerminalEvent::FocusEntered => seq![TerminalEffect::InputMethodFocus(true)] + (
            match self.surface {
                Some(surface) => seq![TerminalEffect::SetSurfaceFocus { surface, focused: true }],
                None => Seq::empty(),
            }),
            TerminalEvent::FocusLeft => seq![TerminalEffect::InputMethodFocus(false)] + (
            match self.surface {
                Some(surface) => seq![TerminalEffect::SetSurfaceFocus { surface, focused: false }],
                None => Seq::empty(),
            }),
            TerminalEvent::Unrealize => match self.surface {
                Some(surface) => seq![TerminalEffect::DisplayUnrealized(surface)],
                None => Seq::empty(),
            },
            TerminalEvent::Destroyed => seq![TerminalEffect::ReleaseInputMethods] + (
            match self.surface {
                Some(surface) => seq![
                    TerminalEffect::ForgetSurface(surface),
                    TerminalEffect::FreeSurface(surface),
                ],
                None => seq![TerminalEffect::DropClipboardContext],
            }),
        }
    }

    /// A widget without a surface yet.
    pub fn new(saved_font_size: bool) -> (r: Self)
        ensures
            r == (TerminalState { surface: None, had_focus: false, saved_font_size }),
    {
        TerminalState { surface: None, had_focus: false, saved_font_size }
    }

    fn push_button_effects(
        &self,
        effects: &mut Vec<TerminalEffect>,
        pressed: bool,
        button: u32,
        mods: KeyMods,
    )
        ensures
            final(effects)@ == old(effects)@ + self.button_effects(pressed, button, mods),
    {
        let ghost before = effects@;
        if let Some(surface) = self.surface {
            if button != RIGHT_BUTTON {
                effects.push(TerminalEffect::MousePosition { surface, mods });
                effects.push(TerminalEffect::OpenLinksOutside(mods.ctrl));
                effects.push(
                    TerminalEffect::MouseButton {
                        surface,
                        pressed,
                        button: mouse_button(button),
                        mods,
                    },
                );
                effects.push(TerminalEffect::OpenLinksOutside(false));
            }
        }
        assert(effects@ =~= before + self.button_effects(pressed, button, mods));
    }

    /// Handles an event: changes the state and says what to do.
    pub fn handle(&mut self, event: TerminalEvent) -> (r: Vec<TerminalEffect>)
        ensures
            *final(self) == old(self).after(event),
            r@ == old(self).effects(event),
    {
        let mut effects: Vec<TerminalEffect> = Vec::new();
        match event {
            TerminalEvent::Mapped => match self.surface {
                Some(surface) => effects.push(TerminalEffect::RefreshRealized(surface)),
                None => effects.push(TerminalEffect::QueueRender),
            },
            TerminalEvent::Realize { gl_error } => {
                if gl_error {
                    effects.push(TerminalEffect::ReportGlError);
                } else {
                    match self.surface {
                        Some(surface) => {
                            effects.push(TerminalEffect::RefreshRealized(surface));
                            effects.push(TerminalEffect::QueueRenderWhenIdle);
                        },
                        None => effects.push(TerminalEffect::MakeSurface),
                    }
                }
            },
            TerminalEvent::SurfaceMade { surface, width, height, scale } => match surface {
                Some(made) => {
                    effects.push(TerminalEffect::RegisterSurface(made));
                    effects.push(TerminalEffect::SetColorScheme(made));
                    if self.saved_font_size {
                        effects.push(TerminalEffect::ApplySavedFontSize(made));
                    }
                    if physical_size_for_allocation(width, height, scale).is_some() {
                        effects.push(TerminalEffect::RefreshDisplay(made));
                    }
                    effects.push(TerminalEffect::ShowSurface(made));
                    effects.push(TerminalEffect::SetSurfaceFocus { surface: made, focused: true });
                    effects.push(TerminalEffect::GrabFocus);
                    self.surface = Some(made);
                    self.had_focus = true;
                },
                None => {
                    effects.push(TerminalEffect::DropClipboardContext);
                    effects.push(TerminalEffect::ReportNoSurface);
                },
            },
            TerminalEvent::Render => {
                if let Some(surface) = self.surface {
                    effects.push(TerminalEffect::Draw(surface));
                }
            },
            TerminalEvent::Resize { width, height } => {
                if let Some(surface) = self.surface {
                    if width != 0 && height != 0 {
                        effects.push(TerminalEffect::RefreshDisplay(surface));
                    }
                }
                if self.had_focus {
                    effects.push(TerminalEffect::GrabFocusWhenIdle);
                }
            },
            TerminalEvent::ScrollbarMoved { row, syncing } => {
                if let Some(surface) = self.surface {
                    if !syncing {
                        effects.push(TerminalEffect::ScrollToRow { surface, row });
                    }
                }
            },
            TerminalEvent::MousePressed { button, mods } => {
                self.had_focus = true;
                effects.push(TerminalEffect::GrabFocus);
                self.push_button_effects(&mut effects, true, button, mods);
            },
            TerminalEvent::MouseReleased { button, mods } => {
                self.push_button_effects(&mut effects, false, button, mods);
            },
            TerminalEvent::RightClicked { mods } => effects.push(
                TerminalEffect::ShowContextMenu { target: self.surface, mods },
            ),
            TerminalEvent::PointerEntered { hover_focus, mods } => {
                if hover_focus {
                    self.had_focus = true;
                    effects.push(TerminalEffect::GrabFocus);
                }
                if let Some(surface) = self.surface {
                    effects.push(TerminalEffect::MousePosition { surface, mods });
                }
            },
            TerminalEvent::PointerMoved { x, y, preview, mods } => {
                if preview {
                    let (x, y) = crate::terminal::action::link_preview_position(x, y);
                    effects.push(TerminalEffect::MovePreview { x, y });
                }
                if let Some(surface) = self.surface {
                    effects.push(TerminalEffect::MousePosition { surface, mods });
                }
            },
            TerminalEvent::Scrolled { mods } => {
                if let Some(surface) = self.surface {
                    effects.push(TerminalEffect::MouseScroll { surface, mods });
                }
            },
            TerminalEvent::FocusEntered => {
                self.had_focus = true;
                effects.push(TerminalEffect::InputMethodFocus(true));
                if let Some(surface) = self.surface {
                    effects.push(TerminalEffect::SetSurfaceFocus { surface, focused: true });
                }
            },
            TerminalEvent::FocusLeft => {
                self.had_focus = false;
                effects.push(TerminalEffect::InputMethodFocus(false));
                if let Some(surface) = self.surface {
                    effects.push(TerminalEffect::SetSurfaceFocus { surface, focused: false });
                }
            },
            TerminalEvent::Unrealize => {
                if let Some(surface) = self.surface {
                    effects.push(TerminalEffect::DisplayUnrealized(surface));
                }
            },
            TerminalEvent::Destroyed => {
                effects.push(TerminalEffect::ReleaseInputMethods);
                match self.surface {
                    Some(surface) => {
                        effects.push(TerminalEffect::ForgetSurface(surface));
                        effects.push(TerminalEffect::FreeSurface(surface));
                        self.surface = None;
                    },
                    None => effects.push(TerminalEffect::DropClipboardContext),
                }
            },
        }
        assert(effects@ =~= old(self).effects(event));
        effects
    }
}

/// Being taken out of the window and put back, as a split does, keeps the surface:
/// no event but the first creation and the end of the widget changes it.
pub proof fn lemma_surface_survives(state: TerminalState, event: TerminalEvent)
    requires
        event !is SurfaceMade,
        event !is Destroyed,
    ensures
        state.after(event).surface == state.surface,
{
}

/// A surface is asked for only where there is none.
pub proof fn lemma_one_surface(state: TerminalState, event: TerminalEvent)
    requires
        state.effects(event).contains(TerminalEffect::MakeSurface),
    ensures
        state.surface is None,
{
    let effects = state.effects(event);
    let i = choose|i: int| 0 <= i < effects.len() && effects[i] == TerminalEffect::MakeSurface;
    assert(effects[i] == TerminalEffect::MakeSurface);
}

/// The surface that the host turns to.
pub open spec fn surface_touched(effect: TerminalEffect) -> Option<usize> {
    match effect {
        TerminalEffect::RefreshRealized(surface) => Some(surface),
        TerminalEffect::RefreshDisplay(surface) => Some(surface),
        TerminalEffect::RegisterSurface(surface) => Some(surface),
        TerminalEffect::SetColorScheme(surface) => Some(surface),
        TerminalEffect::ApplySavedFontSize(surface) => Some(surface),
        TerminalEffect::ShowSurface(surface) => Some(surface),
        TerminalEffect::SetSurfaceFocus { surface, .. } => Some(surface),
        TerminalEffect::Draw(surface) => Some(surface),
        TerminalEffect::ScrollToRow { surface, .. } => Some(surface),
        TerminalEffect::MousePosition { surface, .. } => Some(surface),
        TerminalEffect::MouseButton { surface, .. } => Some(surface),
        TerminalEffect::ShowContextMenu { target, .. } => target,
        TerminalEffect::MouseScroll { surface, .. } => Some(surface),
        TerminalEffect::DisplayUnrealized(surface) => Some(surface),
        TerminalEffect::ForgetSurface(surface) => Some(surface),
        TerminalEffect::FreeSurface(surface) => Some(surface),
        _ => None,
    }
}

/// The host turns to no surface but the widget's own, or the one that was just made
/// for it.
pub proof fn lemma_only_own_surface(state: TerminalState, event: TerminalEvent, i: int)
    requires
        0 <= i < state.effects(event).len(),
    ensures
        match surface_touched(state.effects(event)[i]) {
            Some(surface) => state.surface == Some(surface) || (event matches
                TerminalEvent::SurfaceMade { surface: Some(made), .. } && made == surface),
            None => true,
        },
{
}

/// After a widget is gone nothing is done to its surface any more, whatever events
/// still come.
pub proof fn lemma_nothing_after_destruction(state: TerminalState, event: TerminalEvent, i: int)
    requires
        event !is SurfaceMade,
        0 <= i < state.after(TerminalEvent::Destroyed).effects(event).len(),
    ensures
        surface_touched(state.after(TerminalEvent::Destroyed).effects(event)[i]) is None,
{
    lemma_only_own_surface(state.after(TerminalEvent::Destroyed), event, i);
}

/// What is done first with a key that was pressed or released.
#[derive(Clone, Copy, Debug, PartialEq, Eq, Structural)]
pub enum KeyStart {
    /// There is no surface: let the key pass.
    Pass,
    /// Begin a key event and let the input method filter it.
    Filter(usize),
    /// Send it to the surface.
    Send(usize),
}

/// What is done first with a key. `has_event` says whether the toolkit hands over
/// the event that an input method needs.
pub fn key_start(surface: Option<usize>, has_event: bool) -> (r: KeyStart)
    ensures
        r == (match surface {
            None => KeyStart::Pass,
            Some(surface) => if has_event {
                KeyStart::Filter(surface)
            } else {
                KeyStart::Send(surface)
            },
        }),
{
    match surface {
        None => KeyStart::Pass,
        Some(surface) => if has_event {
            KeyStart::Filter(surface)
        } else {
            KeyStart::Send(surface)
        },
    }
}

/// What is done with a key that the input method has seen: one that it took ends
/// there, any other goes to the surface.
pub fn key_after_filter(surface: usize, taken_by_input_method: bool) -> (r: Option<KeyStart>)
    ensures
        r == (if taken_by_input_method {
            None
        } else {
            Some(KeyStart::Send(surface))
        }),
{
    if taken_by_input_method {
        None
    } else {
        Some(KeyStart::Send(surface))
    }
}

/// What is done with a pressed key that the surface has seen.
#[derive(Clone, Copy, Debug, PartialEq, Eq, Structural)]
pub struct KeyEnd {
    /// Start the composition anew.
    pub reset_composition: bool,
    /// Let the key pass on.
    pub propagate: bool,
}

/// What is done with a pressed key that the surface has seen: one that it took
/// ends there, and with it a composition.
pub fn key_end(consumed: bool, composing: bool) -> (r: KeyEnd)
    ensures
        r == (KeyEnd { reset_composition: consumed && composing, propagate: !consumed }),
{
    KeyEnd { reset_composition: consumed && composing, propagate: !consumed }
}

/// An allocation has a physical size exactly where neither it nor the scale is
/// empty and both sides can be counted in pixels.
pub proof fn lemma_sized_allocations(width: i32, height: i32, scale: i32)
    ensures
        physical_size(width, height, scale) is Some <==> width > 0 && height > 0 && scale > 0
            && width * scale <= u32::MAX && height * scale <= u32::MAX,
{
}

/// A refresh tells the surface its scale and its size in physical pixels, in that
/// order and only where there is a size, then refreshes it, and asks for a frame
/// last.
pub proof fn lemma_refresh_tells_size(surface: usize, width: i32, height: i32, scale: i32)
    ensures
        ({
            let steps = refresh_steps(surface, width, height, scale);
            let n = steps.len() as int;
            &&& n == 2 || n == 4
            &&& n == 4 <==> physical_size(width, height, scale) is Some
            &&& n == 4 ==> {
                &&& steps[0] matches DisplayStep::SetContentScale { surface: s, scale: factor }
                &&& s == surface && factor == scale
                &&& steps[1] matches DisplayStep::SetSize { surface: s, width: w, height: h }
                &&& s == surface && w == width * scale && h == height * scale
            }
            &&& steps[n - 2] == DisplayStep::Refresh(surface)
            &&& steps[n - 1] == DisplayStep::QueueRender
        }),
{
    if physical_size(width, height, scale) is Some {
        lemma_physical_size(width, height, scale);
    }
}

/// An opacity lies between 0 and 1, keeps a value that already does, and of two
/// finite values the larger gives no smaller opacity.
pub proof fn lemma_opacity_is_bounded(a: u64, b: u64)
    ensures
        0 <= double_rank(bounded_opacity(a)) <= double_rank(FULL_OPACITY),
        double_finite(a) && 0 <= double_rank(a) <= double_rank(FULL_OPACITY) ==> bounded_opacity(a)
            == a,
        !double_finite(a) ==> bounded_opacity(a) == FULL_OPACITY,
        double_finite(a) && double_finite(b) && double_rank(a) <= double_rank(b) ==> double_rank(
            bounded_opacity(a),
        ) <= double_rank(bounded_opacity(b)),
{
}

/// Of the variables for a program those are handed over that can be, each as it is
/// and in their order; and none that cannot.
pub proof fn lemma_passable_variables(vars: Seq<(String, String)>, more: Seq<(String, String)>)
    ensures
        passable_vars(vars + more) == passable_vars(vars) + passable_vars(more),
        more.len() == 1 ==> passable_vars(more) == (if passable(more[0].0@) && passable(
            more[0].1@,
        ) {
            seq![(more[0].0@, more[0].1@)]
        } else {
            Seq::empty()
        }),
    decreases more.len(),
{
    if more.len() == 0 {
        assert(vars + more =~= vars);
        assert(passable_vars(vars) + passable_vars(more) =~= passable_vars(vars));
    } else {
        let all = vars + more;
        assert(all.drop_last() =~= vars + more.drop_last());
        assert(all.last() == more.last());
        lemma_passable_variables(vars, more.drop_last());
        assert(passable_vars(all) =~= passable_vars(vars) + passable_vars(more));
        if more.len() == 1 {
            assert(more.drop_last().len() == 0);
            assert(passable_vars(more.drop_last()) =~= Seq::empty());
        }
    }
}

/// A button is let go as it was pressed: a press takes the focus and then sends what
/// a release sends, but for the direction. The surface learns where the pointer is
/// before it learns of the button, links open outside only while the button is
/// handled and only with the control key, and the button of the menu is not sent.
pub proof fn lemma_buttons_are_sent(state: TerminalState, button: u32, mods: KeyMods)
    ensures
        ({
            let press = state.effects(TerminalEvent::MousePressed { button, mods });
            let release = state.effects(TerminalEvent::MouseReleased { button, mods });
            &&& press[0] == TerminalEffect::GrabFocus
            &&& press.len() == release.len() + 1
            &&& release.len() > 0 <==> state.surface is Some && button != RIGHT_BUTTON
            &&& release.len() > 0 ==> {
                let surface = state.surface->0;
                &&& release.len() == 4
                &&& release[0] == (TerminalEffect::MousePosition { surface, mods })
                &&& release[1] == TerminalEffect::OpenLinksOutside(mods.ctrl)
                &&& release[2] == (TerminalEffect::MouseButton {
                    surface,
                    pressed: false,
                    button: button_named(button),
                    mods,
                })
                &&& release[3] == TerminalEffect::OpenLinksOutside(false)
                &&& press[3] == (TerminalEffect::MouseButton {
                    surface,
                    pressed: true,
                    button: button_named(button),
                    mods,
                })
                &&& press[1] == release[0] && press[2] == release[1] && press[4] == release[3]
            }
            &&& button == 1 ==> button_named(button) == MouseButton::Left
            &&& button == 2 ==> button_named(button) == MouseButton::Middle
            &&& button != 1 && button != 2 ==> button_named(button) == MouseButton::Unknown
        }),
{
}

/// A surface is told of the focus when its widget gets or loses it, together with
/// the input method and never the other way round; and what the widget remembers of
/// the focus is what its surface was told last.
pub proof fn lemma_focus_is_passed_on(state: TerminalState, event: TerminalEvent, i: int)
    requires
        0 <= i < state.effects(event).len(),
    ensures
        match state.effects(event)[i] {
            TerminalEffect::SetSurfaceFocus { surface, focused } => {
                &&& focused == !(event is FocusLeft)
                &&& state.after(event).had_focus == focused
                &&& state.after(event).surface == Some(surface)
            },
            TerminalEffect::InputMethodFocus(focused) => {
                &&& event is FocusEntered || event is FocusLeft
                &&& focused == (event is FocusEntered)
                &&& state.after(event).had_focus == focused
            },
            TerminalEffect::GrabFocus => state.after(event).had_focus,
            TerminalEffect::GrabFocusWhenIdle => event is Resize && state.had_focus,
            _ => true,
        },
        event is FocusEntered || event is FocusLeft ==> (state.surface matches Some(surface)
            ==> state.effects(event).len() == 2 && state.effects(event)[1]
            == (TerminalEffect::SetSurfaceFocus { surface, focused: event is FocusEntered })),
{
}

/// A new surface is known to the host, colored, and of the right font size and size
/// before it is shown and gets the focus.
pub proof fn lemma_new_surface_is_set_up(
    state: TerminalState,
    surface: usize,
    width: i32,
    height: i32,
    scale: i32,
)
    ensures
        ({
            let event = TerminalEvent::SurfaceMade { surface: Some(surface), width, height, scale };
            let effects = state.effects(event);
            let n = effects.len() as int;
            let sized = physical_size(width, height, scale) is Some;
            &&& n >= 5
            &&& effects[0] == TerminalEffect::RegisterSurface(surface)
            &&& effects[1] == TerminalEffect::SetColorScheme(surface)
            &&& state.saved_font_size ==> effects[2] == TerminalEffect::ApplySavedFontSize(surface)
            &&& sized ==> effects[n - 4] == TerminalEffect::RefreshDisplay(surface)
            &&& effects[n - 3] == TerminalEffect::ShowSurface(surface)
            &&& effects[n - 2] == (TerminalEffect::SetSurfaceFocus { surface, focused: true })
            &&& effects[n - 1] == TerminalEffect::GrabFocus
            &&& state.saved_font_size && sized <==> n == 7
            &&& !state.saved_font_size && !sized <==> n == 5
            &&& state.after(event).surface == Some(surface)
        }),
{
}

/// A surface that goes is forgotten before it is freed.
pub proof fn lemma_surface_is_freed_last(state: TerminalState)
    ensures
        ({
            let effects = state.effects(TerminalEvent::Destroyed);
            &&& effects[0] == TerminalEffect::ReleaseInputMethods
            &&& state.after(TerminalEvent::Destroyed).surface is None
            &&& state.surface matches Some(surface) ==> effects.len() == 3 && effects[1]
                == TerminalEffect::ForgetSurface(surface) && effects[2]
                == TerminalEffect::FreeSurface(surface)
            &&& state.surface is None ==> effects.len() == 2 && effects[1]
                == TerminalEffect::DropClipboardContext
        }),
{
}

/// Nothing but the end of its widget frees a surface.
pub proof fn lemma_surface_is_freed_once(state: TerminalState, event: TerminalEvent, i: int)
    requires
        0 <= i < state.effects(event).len(),
        state.effects(event)[i] is FreeSurface,
    ensures
        event is Destroyed,
{
}

/// What the user does with the mouse or the scrollbar reaches the surface as it was:
/// the row, the modifiers and the position. Rows that the terminal itself moved the
/// scrollbar to are not sent back, and a resize to nothing is not shown.
pub proof fn lemma_input_reaches_surface(
    state: TerminalState,
    surface: usize,
    row: usize,
    mods: KeyMods,
    x: i32,
    y: i32,
    width: i32,
    height: i32,
    flag: bool,
)
    requires
        state.surface == Some(surface),
    ensures
        ({
            let moved = state.effects(TerminalEvent::ScrollbarMoved { row, syncing: false });
            let entered = state.effects(
                TerminalEvent::PointerEntered { hover_focus: flag, mods },
            );
            let pointed = state.effects(
                TerminalEvent::PointerMoved { x, y, preview: flag, mods },
            );
            let resized = state.effects(TerminalEvent::Resize { width, height });
            &&& moved == seq![TerminalEffect::ScrollToRow { surface, row }]
            &&& state.effects(TerminalEvent::ScrollbarMoved { row, syncing: true }).len() == 0
            &&& state.effects(TerminalEvent::Scrolled { mods }) == seq![
                TerminalEffect::MouseScroll { surface, mods },
            ]
            &&& entered.last() == (TerminalEffect::MousePosition { surface, mods })
            &&& entered.contains(TerminalEffect::GrabFocus) <==> flag
            &&& pointed.last() == (TerminalEffect::MousePosition { surface, mods })
            &&& pointed.len() == 2 <==> flag
            &&& flag ==> (pointed[0] matches TerminalEffect::MovePreview { x: px, y: py } && px
                == x && py <= y && (y >= 0 ==> py
                == y - crate::terminal::action::LINK_PREVIEW_CURSOR_Y_GAP))
            &&& resized.contains(TerminalEffect::RefreshDisplay(surface)) <==> width != 0
                && height != 0
        }),
{
    let entered = state.effects(TerminalEvent::PointerEntered { hover_focus: flag, mods });
    let resized = state.effects(TerminalEvent::Resize { width, height });
    if flag {
        assert(entered[0] == TerminalEffect::GrabFocus);
    }
    if width != 0 && height != 0 {
        assert(resized[0] == TerminalEffect::RefreshDisplay(surface));
    }
    assert(state.effects(TerminalEvent::ScrollbarMoved { row, syncing: false }) =~= seq![
        TerminalEffect::ScrollToRow { surface, row },
    ]);
}

/// A widget remembers that it has the focus from when it gets it, by a click, by the
/// pointer where that is wanted, or with its surface, until it loses it; nothing else
/// changes that, nor what it remembers of the font size.
pub proof fn lemma_focus_is_remembered(state: TerminalState, event: TerminalEvent)
    ensures
        ({
            let after = state.after(event);
            let gets = event is FocusEntered || event is MousePressed || (event
                matches TerminalEvent::PointerEntered { hover_focus, .. } && hover_focus) || (event
                matches TerminalEvent::SurfaceMade { surface, .. } && surface is Some);
            &&& gets ==> after.had_focus
            &&& event is FocusLeft ==> !after.had_focus
            &&& !gets && !(event is FocusLeft) ==> after.had_focus == state.had_focus
            &&& after.saved_font_size == state.saved_font_size
        }),
{
}

} // verus!
