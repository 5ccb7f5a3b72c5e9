//! Shortcuts: which commands there are, when a key is left to the widget that is
//! typed into, and where each command goes.
use vstd::prelude::*;
use vstd::string::*;

use crate::split_tree::Orientation;
use crate::text::{optional_str, starts_with};
use crate::window::focus::Direction;
use crate::window::panes::SplitPaneOptions;

verus! {

/// 1.0 in single precision.
pub const FONT_SIZE_STEP_UP: u32 = 0x3F80_0000;

/// -1.0 in single precision.
pub const FONT_SIZE_STEP_DOWN: u32 = 0xBF80_0000;

/// A command that a shortcut gives.
#[derive(Clone, Copy, Debug, PartialEq, Eq, Structural)]
pub enum ShortcutCommand {
    NewWorkspace,
    CloseWorkspace,
    QuitApp,
    NewInstance,
    ToggleSidebar,
    ToggleTopBar,
    ToggleFullscreen,
    NextWorkspace,
    PrevWorkspace,
    CycleTabPrev,
    CycleTabNext,
    SplitDown,
    NewTerminal,
    SplitRight,
    CloseFocusedPane,
    CloseFocusedTab,
    ToggleFocusedPaneZoom,
    FocusLeft,
    FocusRight,
    FocusUp,
    FocusDown,
    ActivateWorkspace1,
    ActivateWorkspace2,
    ActivateWorkspace3,
    ActivateWorkspace4,
    ActivateWorkspace5,
    ActivateWorkspace6,
    ActivateWorkspace7,
    ActivateWorkspace8,
    ActivateLastWorkspace,
    OpenBrowserInSplit,
    BrowserFocusLocation,
    BrowserBack,
    BrowserForward,
    BrowserReload,
    BrowserInspector,
    BrowserConsole,
    SurfaceFind,
    SurfaceFindNext,
    SurfaceFindPrevious,
    SurfaceFindHide,
    SurfaceUseSelectionForFind,
    TerminalClearScrollback,
    TerminalCopy,
    TerminalPaste,
    TerminalIncreaseFontSize,
    TerminalDecreaseFontSize,
    TerminalResetFontSize,
}

/// Whether a shortcut works while something is being typed into.
#[derive(Clone, Copy, Debug, PartialEq, Eq, Structural)]
pub enum EditableCapturePolicy {
    AlwaysCapture,
    BypassInEditable,
}

/// What has the focus, as far as typing is concerned.
#[derive(Clone, Copy, Debug, PartialEq, Eq, Structural)]
pub struct EditableCaptureContext {
    /// An entry of the window.
    pub gtk_editable: bool,
    /// A field of the page in a browser.
    pub browser_dom_editable: bool,
    /// The search bar of a browser.
    pub browser_find_active: bool,
}

impl Default for EditableCaptureContext {
    fn default() -> (r: Self)
        ensures
            r == (EditableCaptureContext {
                gtk_editable: false,
                browser_dom_editable: false,
                browser_find_active: false,
            }),
    {
        EditableCaptureContext {
            gtk_editable: false,
            browser_dom_editable: false,
            browser_find_active: false,
        }
    }
}

/// Whether a command walks through the matches of a search.
pub open spec fn is_find_navigation(command: ShortcutCommand) -> bool {
    command == ShortcutCommand::SurfaceFindNext || command == ShortcutCommand::SurfaceFindPrevious
        || command == ShortcutCommand::SurfaceFindHide
}

pub fn shortcut_allowed_while_browser_find_active(command: ShortcutCommand) -> (r: bool)
    ensures
        r == is_find_navigation(command),
{
    match command {
        ShortcutCommand::SurfaceFindNext
        | ShortcutCommand::SurfaceFindPrevious
        | ShortcutCommand::SurfaceFindHide => true,
        _ => false,
    }
}

/// Whether a key is left to what is typed into, instead of being taken for a
/// shortcut.
pub fn shortcut_blocked_by_editable(
    command: ShortcutCommand,
    policy: EditableCapturePolicy,
    context: EditableCaptureContext,
) -> (r: bool)
    ensures
        r == (policy != EditableCapturePolicy::AlwaysCapture && !(context.browser_find_active
            && is_find_navigation(command)) && (context.gtk_editable
            || context.browser_dom_editable)),
{
    if policy == EditableCapturePolicy::AlwaysCapture {
        return false;
    }
    if context.browser_find_active && shortcut_allowed_while_browser_find_active(command) {
        return false;
    }
    context.gtk_editable || context.browser_dom_editable
}

/// Whether a key goes on to other widgets.
#[derive(Clone, Copy, Debug, PartialEq, Eq, Structural)]
pub enum Propagation {
    Stop,
    Proceed,
}

/// A key that was a shortcut of the window ends there.
pub fn shortcut_dispatch_propagation(matched: bool) -> (r: Propagation)
    ensures
        r == (if matched {
            Propagation::Stop
        } else {
            Propagation::Proceed
        }),
{
    if matched {
        Propagation::Stop
    } else {
        Propagation::Proceed
    }
}

/// A shortcut that a key matches.
#[derive(Clone, Copy, Debug, PartialEq, Eq, Structural)]
pub struct MatchedShortcut {
    pub command: ShortcutCommand,
    pub editable_capture_policy: EditableCapturePolicy,
}

/// The command that a key gives: none while the shortcut editor listens for a key,
/// none for a key that is no shortcut, and none where the key is left to what is
/// typed into.
pub fn captured_command(
    editor_listening: bool,
    matched: Option<MatchedShortcut>,
    context: EditableCaptureContext,
) -> (r: Option<ShortcutCommand>)
    ensures
        r == (match matched {
            Some(matched) => if editor_listening || (matched.editable_capture_policy
                != EditableCapturePolicy::AlwaysCapture && !(context.browser_find_active
                && is_find_navigation(matched.command)) && (context.gtk_editable
                || context.browser_dom_editable)) {
                None
            } else {
                Some(matched.command)
            },
            None => None,
        }),
        r is Some ==> (matched matches Some(shortcut) && r == Some(shortcut.command)),
        editor_listening ==> r is None,
        !editor_listening && !context.gtk_editable && !context.browser_dom_editable ==> r is Some
            == matched is Some,
        !editor_listening ==> (matched matches Some(shortcut)
            ==> shortcut.editable_capture_policy == EditableCapturePolicy::AlwaysCapture ==> r
            == Some(shortcut.command)),
{
    if editor_listening {
        return None;
    }
    match matched {
        Some(matched) => if shortcut_blocked_by_editable(
            matched.command,
            matched.editable_capture_policy,
            context,
        ) {
            None
        } else {
            Some(matched.command)
        },
        None => None,
    }
}

/// What a command does.
#[derive(Clone, Copy, Debug, PartialEq, Eq, Structural)]
pub enum ShortcutAction {
    AddWorkspace,
    CloseWorkspace,
    Quit,
    /// Start the application a second time; counts as handled if that works.
    SpawnInstance,
    ToggleSidebar,
    ToggleTopBar,
    ToggleFullscreen,
    CycleWorkspace(i32),
    CycleTab(i32),
    SplitFocused(Orientation),
    AddTerminalTab,
    ClosePane,
    CloseTab,
    ToggleZoom,
    FocusPane(Direction),
    ActivateWorkspace(usize),
    ActivateLastWorkspace,
    /// A request of the focused browser; handled if there is one that takes it.
    Browser(ShortcutCommand),
    /// A request of the focused terminal, else of the focused browser.
    TerminalOrBrowser(ShortcutCommand),
    /// A request of the focused terminal; handled if there is one that takes it.
    Terminal(ShortcutCommand),
}

/// Where a command goes.
pub open spec fn action_of(command: ShortcutCommand) -> ShortcutAction {
    match command {
        ShortcutCommand::NewWorkspace => ShortcutAction::AddWorkspace,
        ShortcutCommand::CloseWorkspace => ShortcutAction::CloseWorkspace,
        ShortcutCommand::QuitApp => ShortcutAction::Quit,
        ShortcutCommand::NewInstance => ShortcutAction::SpawnInstance,
        ShortcutCommand::ToggleSidebar => ShortcutAction::ToggleSidebar,
        ShortcutCommand::ToggleTopBar => ShortcutAction::ToggleTopBar,
        ShortcutCommand::ToggleFullscreen => ShortcutAction::ToggleFullscreen,
        ShortcutCommand::NextWorkspace => ShortcutAction::CycleWorkspace(1),
        ShortcutCommand::PrevWorkspace => ShortcutAction::CycleWorkspace(-1i32 as i32),
        ShortcutCommand::CycleTabPrev => ShortcutAction::CycleTab(-1i32 as i32),
        ShortcutCommand::CycleTabNext => ShortcutAction::CycleTab(1),
        ShortcutCommand::SplitDown => ShortcutAction::SplitFocused(Orientation::Vertical),
        ShortcutCommand::NewTerminal => ShortcutAction::AddTerminalTab,
        ShortcutCommand::SplitRight => ShortcutAction::SplitFocused(Orientation::Horizontal),
        ShortcutCommand::CloseFocusedPane => ShortcutAction::ClosePane,
        ShortcutCommand::CloseFocusedTab => ShortcutAction::CloseTab,
        ShortcutCommand::ToggleFocusedPaneZoom => ShortcutAction::ToggleZoom,
        ShortcutCommand::FocusLeft => ShortcutAction::FocusPane(Direction::Left),
        ShortcutCommand::FocusRight => ShortcutAction::FocusPane(Direction::Right),
        ShortcutCommand::FocusUp => ShortcutAction::FocusPane(Direction::Up),
        ShortcutCommand::FocusDown => ShortcutAction::FocusPane(Direction::Down),
        ShortcutCommand::ActivateWorkspace1 => ShortcutAction::ActivateWorkspace(0),
        ShortcutCommand::ActivateWorkspace2 => ShortcutAction::ActivateWorkspace(1),
        ShortcutCommand::ActivateWorkspace3 => ShortcutAction::ActivateWorkspace(2),
        ShortcutCommand::ActivateWorkspace4 => ShortcutAction::ActivateWorkspace(3),
        ShortcutCommand::ActivateWorkspace5 => ShortcutAction::ActivateWorkspace(4),
        ShortcutCommand::ActivateWorkspace6 => ShortcutAction::ActivateWorkspace(5),
        ShortcutCommand::ActivateWorkspace7 => ShortcutAction::ActivateWorkspace(6),
        ShortcutCommand::ActivateWorkspace8 => ShortcutAction::ActivateWorkspace(7),
        ShortcutCommand::ActivateLastWorkspace => ShortcutAction::ActivateLastWorkspace,
        ShortcutCommand::OpenBrowserInSplit => ShortcutAction::Browser(command),
        ShortcutCommand::BrowserFocusLocation => ShortcutAction::Browser(command),
        ShortcutCommand::BrowserBack => ShortcutAction::Browser(command),
        ShortcutCommand::BrowserForward => ShortcutAction::Browser(command),
        ShortcutCommand::BrowserReload => ShortcutAction::Browser(command),
        ShortcutCommand::BrowserInspector => ShortcutAction::Browser(command),
        ShortcutCommand::BrowserConsole => ShortcutAction::Browser(command),
        ShortcutCommand::SurfaceFind => ShortcutAction::TerminalOrBrowser(command),
        ShortcutCommand::SurfaceFindNext => ShortcutAction::TerminalOrBrowser(command),
        ShortcutCommand::SurfaceFindPrevious => ShortcutAction::TerminalOrBrowser(command),
        ShortcutCommand::SurfaceFindHide => ShortcutAction::TerminalOrBrowser(command),
        ShortcutCommand::SurfaceUseSelectionForFind => ShortcutAction::TerminalOrBrowser(command),
        ShortcutCommand::TerminalClearScrollback => ShortcutAction::Terminal(command),
        ShortcutCommand::TerminalCopy => ShortcutAction::Terminal(command),
        ShortcutCommand::TerminalPaste => ShortcutAction::Terminal(command),
        ShortcutCommand::TerminalIncreaseFontSize => ShortcutAction::Terminal(command),
        ShortcutCommand::TerminalDecreaseFontSize => ShortcutAction::Terminal(command),
        ShortcutCommand::TerminalResetFontSize => ShortcutAction::Terminal(command),
    }
}

/// Whether a command counts as handled whatever comes of it.
pub open spec fn always_handled(command: ShortcutCommand) -> bool {
    match action_of(command) {
        ShortcutAction::SpawnInstance => false,
        ShortcutAction::Browser(_) => false,
        ShortcutAction::TerminalOrBrowser(_) => false,
        ShortcutAction::Terminal(_) => false,
        _ => true,
    }
}

/// What a command does, and whether it counts as handled whatever comes of it.
pub fn dispatch_shortcut_command(command: ShortcutCommand) -> (r: (ShortcutAction, bool))
    ensures
        r.0 == action_of(command),
        r.1 == always_handled(command),
{
    match command {
        ShortcutCommand::NewWorkspace => (ShortcutAction::AddWorkspace, true),
        ShortcutCommand::CloseWorkspace => (ShortcutAction::CloseWorkspace, true),
        ShortcutCommand::QuitApp => (ShortcutAction::Quit, true),
        ShortcutCommand::NewInstance => (ShortcutAction::SpawnInstance, false),
        ShortcutCommand::ToggleSidebar => (ShortcutAction::ToggleSidebar, true),
        ShortcutCommand::ToggleTopBar => (ShortcutAction::ToggleTopBar, true),
        ShortcutCommand::ToggleFullscreen => (ShortcutAction::ToggleFullscreen, true),
        ShortcutCommand::NextWorkspace => (ShortcutAction::CycleWorkspace(1), true),
        ShortcutCommand::PrevWorkspace => (ShortcutAction::CycleWorkspace(-1), true),
        ShortcutCommand::CycleTabPrev => (ShortcutAction::CycleTab(-1), true),
        ShortcutCommand::CycleTabNext => (ShortcutAction::CycleTab(1), true),
        ShortcutCommand::SplitDown => (ShortcutAction::SplitFocused(Orientation::Vertical), true),
        ShortcutCommand::NewTerminal => (ShortcutAction::AddTerminalTab, true),
        ShortcutCommand::SplitRight => (
            ShortcutAction::SplitFocused(Orientation::Horizontal),
            true,
        ),
        ShortcutCommand::CloseFocusedPane => (ShortcutAction::ClosePane, true),
        ShortcutCommand::CloseFocusedTab => (ShortcutAction::CloseTab, true),
        ShortcutCommand::ToggleFocusedPaneZoom => (ShortcutAction::ToggleZoom, true),
        ShortcutCommand::FocusLeft => (ShortcutAction::FocusPane(Direction::Left), true),
        ShortcutCommand::FocusRight => (ShortcutAction::FocusPane(Direction::Right), true),
        ShortcutCommand::FocusUp => (ShortcutAction::FocusPane(Direction::Up), true),
        ShortcutCommand::FocusDown => (ShortcutAction::FocusPane(Direction::Down), true),
        ShortcutCommand::ActivateWorkspace1 => (ShortcutAction::ActivateWorkspace(0), true),
        ShortcutCommand::ActivateWorkspace2 => (ShortcutAction::ActivateWorkspace(1), true),
        ShortcutCommand::ActivateWorkspace3 => (ShortcutAction::ActivateWorkspace(2), true),
        ShortcutCommand::ActivateWorkspace4 => (ShortcutAction::ActivateWorkspace(3), true),
        ShortcutCommand::ActivateWorkspace5 => (ShortcutAction::ActivateWorkspace(4), true),
        ShortcutCommand::ActivateWorkspace6 => (ShortcutAction::ActivateWorkspace(5), true),
        ShortcutCommand::ActivateWorkspace7 => (ShortcutAction::ActivateWorkspace(6), true),
        ShortcutCommand::ActivateWorkspace8 => (ShortcutAction::ActivateWorkspace(7), true),
        ShortcutCommand::ActivateLastWorkspace => (ShortcutAction::ActivateLastWorkspace, true),
        ShortcutCommand::OpenBrowserInSplit
        | ShortcutCommand::BrowserFocusLocation
        | ShortcutCommand::BrowserBack
        | ShortcutCommand::BrowserForward
        | ShortcutCommand::BrowserReload
        | ShortcutCommand::BrowserInspector
        | ShortcutCommand::BrowserConsole => (ShortcutAction::Browser(command), false),
        ShortcutCommand::SurfaceFind
        | ShortcutCommand::SurfaceFindNext
        | ShortcutCommand::SurfaceFindPrevious
        | ShortcutCommand::SurfaceFindHide
        | ShortcutCommand::SurfaceUseSelectionForFind => (
            ShortcutAction::TerminalOrBrowser(command),
            false,
        ),
        ShortcutCommand::TerminalClearScrollback
        | ShortcutCommand::TerminalCopy
        | ShortcutCommand::TerminalPaste
        | ShortcutCommand::TerminalIncreaseFontSize
        | ShortcutCommand::TerminalDecreaseFontSize
        | ShortcutCommand::TerminalResetFontSize => (ShortcutAction::Terminal(command), false),
    }
}

/// Whether a command counts as handled, given what came of it: whether a new
/// instance was started, and whether a terminal or a browser took the command. The
/// browser is asked where the terminal did not take it.
pub fn handled(
    command: ShortcutCommand,
    spawned: bool,
    terminal_took: bool,
    browser_took: bool,
) -> (r: bool)
    ensures
        r == (match action_of(command) {
            ShortcutAction::SpawnInstance => spawned,
            ShortcutAction::Browser(_) => browser_took,
            ShortcutAction::TerminalOrBrowser(_) => terminal_took || browser_took,
            ShortcutAction::Terminal(_) => terminal_took,
            _ => true,
        }),
        always_handled(command) ==> r,
{
    match dispatch_shortcut_command(command).0 {
        ShortcutAction::SpawnInstance => spawned,
        ShortcutAction::Browser(_) => browser_took,
        ShortcutAction::TerminalOrBrowser(_) => terminal_took || browser_took,
        ShortcutAction::Terminal(_) => terminal_took,
        _ => true,
    }
}

/// A split that a command asks for.
#[derive(Clone, Copy, Debug, PartialEq, Eq, Structural)]
pub struct SplitRequest {
    pub orientation: Orientation,
    pub options: SplitPaneOptions,
}

/// The split that a command asks for. The new pane comes second, with a tab, and
/// the session is saved; a browser opens to the right.
pub open spec fn split_of(command: ShortcutCommand) -> Option<SplitRequest> {
    let options = SplitPaneOptions {
        skip_default_tab: false,
        new_pane_first: false,
        persist: true,
    };
    match command {
        ShortcutCommand::SplitDown => Some(
            SplitRequest { orientation: Orientation::Vertical, options },
        ),
        ShortcutCommand::SplitRight => Some(
            SplitRequest { orientation: Orientation::Horizontal, options },
        ),
        ShortcutCommand::OpenBrowserInSplit => Some(
            SplitRequest { orientation: Orientation::Horizontal, options },
        ),
        _ => None,
    }
}

pub fn split_for_command(command: ShortcutCommand) -> (r: Option<SplitRequest>)
    ensures
        r == split_of(command),
{
    let options = SplitPaneOptions {
        skip_default_tab: false,
        new_pane_first: false,
        persist: true,
    };
    match command {
        ShortcutCommand::SplitDown => Some(
            SplitRequest { orientation: Orientation::Vertical, options },
        ),
        ShortcutCommand::SplitRight | ShortcutCommand::OpenBrowserInSplit => Some(
            SplitRequest { orientation: Orientation::Horizontal, options },
        ),
        _ => None,
    }
}

/// The commands that ask for a split are those that split the focused pane, that
/// way round, and the one that opens a browser beside it.
pub proof fn lemma_split_commands(command: ShortcutCommand)
    ensures
        split_of(command) is Some <==> (action_of(command) is SplitFocused || command
            == ShortcutCommand::OpenBrowserInSplit),
        action_of(command) matches ShortcutAction::SplitFocused(orientation)
            ==> split_of(command)->Some_0.orientation == orientation,
{
}

/// The address that a new browser starts at: that of the focused browser.
pub fn new_browser_address(focused_browser: bool, current_uri: Option<String>) -> (r: Option<
    String,
>)
    ensures
        r == (if focused_browser {
            current_uri
        } else {
            None
        }),
{
    if focused_browser {
        current_uri
    } else {
        None
    }
}

/// What a command asks of the focused terminal.
#[derive(Clone, Copy, Debug, PartialEq, Eq, Structural)]
pub enum TerminalRequest {
    ShowFind,
    FindNext,
    FindPrevious,
    HideFind,
    UseSelectionForFind,
    ClearScreen,
    CopySelection,
    Paste,
    IncreaseFontSize,
    DecreaseFontSize,
    ResetFontSize,
}

pub open spec fn terminal_request(command: ShortcutCommand) -> Option<TerminalRequest> {
    match command {
        ShortcutCommand::SurfaceFind => Some(TerminalRequest::ShowFind),
        ShortcutCommand::SurfaceFindNext => Some(TerminalRequest::FindNext),
        ShortcutCommand::SurfaceFindPrevious => Some(TerminalRequest::FindPrevious),
        ShortcutCommand::SurfaceFindHide => Some(TerminalRequest::HideFind),
        ShortcutCommand::SurfaceUseSelectionForFind => Some(TerminalRequest::UseSelectionForFind),
        ShortcutCommand::TerminalClearScrollback => Some(TerminalRequest::ClearScreen),
        ShortcutCommand::TerminalCopy => Some(TerminalRequest::CopySelection),
        ShortcutCommand::TerminalPaste => Some(TerminalRequest::Paste),
        ShortcutCommand::TerminalIncreaseFontSize => Some(TerminalRequest::IncreaseFontSize),
        ShortcutCommand::TerminalDecreaseFontSize => Some(TerminalRequest::DecreaseFontSize),
        ShortcutCommand::TerminalResetFontSize => Some(TerminalRequest::ResetFontSize),
        _ => None,
    }
}

/// What a command asks of the focused terminal; nothing without one.
pub fn dispatch_terminal_command(has_terminal: bool, command: ShortcutCommand) -> (r: Option<
    TerminalRequest,
>)
    ensures
        r == (if has_terminal {
            terminal_request(command)
        } else {
            None
        }),
{
    if !has_terminal {
        return None;
    }
    match command {
        ShortcutCommand::SurfaceFind => Some(TerminalRequest::ShowFind),
        ShortcutCommand::SurfaceFindNext => Some(TerminalRequest::FindNext),
        ShortcutCommand::SurfaceFindPrevious => Some(TerminalRequest::FindPrevious),
        ShortcutCommand::SurfaceFindHide => Some(TerminalRequest::HideFind),
        ShortcutCommand::SurfaceUseSelectionForFind => Some(TerminalRequest::UseSelectionForFind),
        ShortcutCommand::TerminalClearScrollback => Some(TerminalRequest::ClearScreen),
        ShortcutCommand::TerminalCopy => Some(TerminalRequest::CopySelection),
        ShortcutCommand::TerminalPaste => Some(TerminalRequest::Paste),
        ShortcutCommand::TerminalIncreaseFontSize => Some(TerminalRequest::IncreaseFontSize),
        ShortcutCommand::TerminalDecreaseFontSize => Some(TerminalRequest::DecreaseFontSize),
        ShortcutCommand::TerminalResetFontSize => Some(TerminalRequest::ResetFontSize),
        _ => None,
    }
}

/// The terminal's own action that a request comes to.
pub open spec fn request_action(request: TerminalRequest) -> Option<Seq<char>> {
    match request {
        TerminalRequest::ClearScreen => Some("clear_screen"@),
        TerminalRequest::Paste => Some("paste_from_clipboard"@),
        _ => None,
    }
}

/// The terminal's own action that a request comes to. The other requests are for
/// the host's find bar, for the selection and for the font size.
pub fn binding_action(request: TerminalRequest) -> (r: Option<&'static str>)
    ensures
        optional_str(r) == request_action(request),
{
    match request {
        TerminalRequest::ClearScreen => Some("clear_screen"),
        TerminalRequest::Paste => Some("paste_from_clipboard"),
        _ => None,
    }
}

/// The step that a request takes the font size by, as a single-precision pattern: 1
/// up or 1 down.
pub fn font_size_step(request: TerminalRequest) -> (r: Option<u32>)
    ensures
        r == (match request {
            TerminalRequest::IncreaseFontSize => Some(FONT_SIZE_STEP_UP),
            TerminalRequest::DecreaseFontSize => Some(FONT_SIZE_STEP_DOWN),
            _ => None,
        }),
{
    match request {
        TerminalRequest::IncreaseFontSize => Some(FONT_SIZE_STEP_UP),
        TerminalRequest::DecreaseFontSize => Some(FONT_SIZE_STEP_DOWN),
        _ => None,
    }
}

/// Whether a command is about a browser that is there already.
pub fn browser_command_requires_existing_target(command: ShortcutCommand) -> (r: bool)
    ensures
        r == (command != ShortcutCommand::OpenBrowserInSplit),
{
    command != ShortcutCommand::OpenBrowserInSplit
}

/// What a command asks of a browser.
#[derive(Clone, Copy, Debug, PartialEq, Eq, Structural)]
pub enum BrowserRequest {
    /// Split the focused pane for a browser, at the address of the focused one.
    OpenInSplit,
    FocusLocation,
    Back,
    Forward,
    Reload,
    ShowInspector,
    ShowConsole,
    ShowFind,
    FindNext,
    FindPrevious,
    HideFind,
    UseSelectionForFind,
}

pub open spec fn browser_request(command: ShortcutCommand) -> Option<BrowserRequest> {
    match command {
        ShortcutCommand::BrowserFocusLocation => Some(BrowserRequest::FocusLocation),
        ShortcutCommand::BrowserBack => Some(BrowserRequest::Back),
        ShortcutCommand::BrowserForward => Some(BrowserRequest::Forward),
        ShortcutCommand::BrowserReload => Some(BrowserRequest::Reload),
        ShortcutCommand::BrowserInspector => Some(BrowserRequest::ShowInspector),
        ShortcutCommand::BrowserConsole => Some(BrowserRequest::ShowConsole),
        ShortcutCommand::SurfaceFind => Some(BrowserRequest::ShowFind),
        ShortcutCommand::SurfaceFindNext => Some(BrowserRequest::FindNext),
        ShortcutCommand::SurfaceFindPrevious => Some(BrowserRequest::FindPrevious),
        ShortcutCommand::SurfaceFindHide => Some(BrowserRequest::HideFind),
        ShortcutCommand::SurfaceUseSelectionForFind => Some(BrowserRequest::UseSelectionForFind),
        _ => None,
    }
}

/// What a command asks of a browser: a new one needs a focused pane, anything else
/// a focused browser.
pub fn dispatch_browser_command(
    has_pane: bool,
    has_browser: bool,
    command: ShortcutCommand,
) -> (r: Option<BrowserRequest>)
    ensures
        r == (if command == ShortcutCommand::OpenBrowserInSplit {
            if has_pane {
                Some(BrowserRequest::OpenInSplit)
            } else {
                None
            }
        } else if has_browser {
            browser_request(command)
        } else {
            None
        }),
{
    if !browser_command_requires_existing_target(command) {
        return if has_pane {
            Some(BrowserRequest::OpenInSplit)
        } else {
            None
        };
    }
    if !has_browser {
        return None;
    }
    match command {
        ShortcutCommand::BrowserFocusLocation => Some(BrowserRequest::FocusLocation),
        ShortcutCommand::BrowserBack => Some(BrowserRequest::Back),
        ShortcutCommand::BrowserForward => Some(BrowserRequest::Forward),
        ShortcutCommand::BrowserReload => Some(BrowserRequest::Reload),
        ShortcutCommand::BrowserInspector => Some(BrowserRequest::ShowInspector),
        ShortcutCommand::BrowserConsole => Some(BrowserRequest::ShowConsole),
        ShortcutCommand::SurfaceFind => Some(BrowserRequest::ShowFind),
        ShortcutCommand::SurfaceFindNext => Some(BrowserRequest::FindNext),
        ShortcutCommand::SurfaceFindPrevious => Some(BrowserRequest::FindPrevious),
        ShortcutCommand::SurfaceFindHide => Some(BrowserRequest::HideFind),
        ShortcutCommand::SurfaceUseSelectionForFind => Some(BrowserRequest::UseSelectionForFind),
        _ => None,
    }
}

/// Every command that goes to a terminal or a browser is one that they know.
pub proof fn lemma_routed_commands_are_known(command: ShortcutCommand)
    ensures
        action_of(command) matches ShortcutAction::Terminal(c) ==> terminal_request(c) is Some,
        action_of(command) matches ShortcutAction::TerminalOrBrowser(c) ==> terminal_request(c)
            is Some && browser_request(c) is Some,
        action_of(command) matches ShortcutAction::Browser(c) ==> browser_request(c) is Some || c
            == ShortcutCommand::OpenBrowserInSplit,
{
}

/// A widget that has the focus, or is above the one that has.
#[derive(Clone, Copy, Debug, PartialEq, Eq, Structural)]
pub struct FocusLink {
    /// The shortcut editor, while it listens for a key.
    pub listening: bool,
    /// Something to type into.
    pub editable: bool,
}

/// Whether the shortcut editor listens for a key.
pub fn focused_widget_is_listening_for_keybind_capture(chain: &Vec<FocusLink>) -> (r: bool)
    ensures
        r == exists|i: int| 0 <= i < chain@.len() && (#[trigger] chain@[i]).listening,
{
    let mut i: usize = 0;
    while i < chain.len()
        invariant
            i <= chain@.len(),
            forall|j: int| 0 <= j < i ==> !(#[trigger] chain@[j]).listening,
        decreases chain@.len() - i,
    {
        if chain[i].listening {
            assert(chain@[i as int].listening);
            return true;
        }
        i += 1;
    }
    false
}

/// Whether something is typed into.
pub fn focused_widget_is_editable(chain: &Vec<FocusLink>) -> (r: bool)
    ensures
        r == exists|i: int| 0 <= i < chain@.len() && (#[trigger] chain@[i]).editable,
{
    let mut i: usize = 0;
    while i < chain.len()
        invariant
            i <= chain@.len(),
            forall|j: int| 0 <= j < i ==> !(#[trigger] chain@[j]).editable,
        decreases chain@.len() - i,
    {
        if chain[i].editable {
            assert(chain@[i as int].editable);
            return true;
        }
        i += 1;
    }
    false
}

/// A browser that has the focus.
#[derive(Clone, Copy, Debug, PartialEq, Eq, Structural)]
pub struct FocusedBrowser {
    pub page_editable: bool,
    pub find_active: bool,
}

/// What has the focus, as far as typing is concerned.
pub fn focused_editable_capture_context(
    gtk_editable: bool,
    browser: Option<FocusedBrowser>,
) -> (r: EditableCaptureContext)
    ensures
        r == (match browser {
            Some(browser) => EditableCaptureContext {
                gtk_editable,
                browser_dom_editable: browser.page_editable,
                browser_find_active: browser.find_active,
            },
            None => EditableCaptureContext {
                gtk_editable,
                browser_dom_editable: false,
                browser_find_active: false,
            },
        }),
{
    match browser {
        Some(browser) => EditableCaptureContext {
            gtk_editable,
            browser_dom_editable: browser.page_editable,
            browser_find_active: browser.find_active,
        },
        None => EditableCaptureContext {
            gtk_editable,
            browser_dom_editable: false,
            browser_find_active: false,
        },
    }
}

/// Where an action is registered.
#[derive(Clone, Copy, Debug, PartialEq, Eq, Structural)]
pub enum ActionScope {
    Window,
    Application,
}

/// Where an action is registered, by the prefix of its name.
pub fn action_scope(action_name: &str) -> (r: Option<ActionScope>)
    ensures
        r == (if "win."@.is_prefix_of(action_name@) {
            Some(ActionScope::Window)
        } else if "app."@.is_prefix_of(action_name@) {
            Some(ActionScope::Application)
        } else {
            None
        }),
{
    if starts_with(action_name, "win.") {
        Some(ActionScope::Window)
    } else if starts_with(action_name, "app.") {
        Some(ActionScope::Application)
    } else {
        None
    }
}

/// How starting the application a second time went.
#[derive(Debug, PartialEq)]
pub enum SpawnOutcome {
    Started,
    /// The application's own file could not be found.
    NoExecutable(String),
    /// It could not be started.
    NotStarted(String),
}

/// What the user is told when the application cannot be started a second time.
pub fn spawn_new_instance(outcome: &SpawnOutcome) -> (r: Option<String>)
    ensures
        match outcome {
            SpawnOutcome::Started => r is None,
            SpawnOutcome::NoExecutable(cause) => r matches Some(detail) && detail@
                == "Failed to resolve the current Limux executable: "@ + cause@,
            SpawnOutcome::NotStarted(cause) => r matches Some(detail) && detail@
                == "Failed to launch a new Limux instance: "@ + cause@,
        },
{
    match outcome {
        SpawnOutcome::Started => None,
        SpawnOutcome::NoExecutable(cause) => {
            let mut detail = "Failed to resolve the current Limux executable: ".to_owned();
            detail.append(cause.as_str());
            Some(detail)
        },
        SpawnOutcome::NotStarted(cause) => {
            let mut detail = "Failed to launch a new Limux instance: ".to_owned();
            detail.append(cause.as_str());
            Some(detail)
        },
    }
}

/// How far a new key for a command got.
#[derive(Debug, PartialEq)]
pub enum BindingOutcome {
    /// The shortcuts cannot have it.
    Refused(String),
    /// There is no configuration directory to write it to.
    NoDirectory,
    NotWritten(String),
    /// It was written, and the shortcuts were read again with these warnings.
    Reloaded(Vec<String>),
}

/// Warnings with `; ` between each two.
pub open spec fn joined_warnings(warnings: Seq<String>) -> Seq<char>
    decreases warnings.len(),
{
    if warnings.len() == 0 {
        Seq::empty()
    } else if warnings.len() == 1 {
        warnings[0]@
    } else {
        joined_warnings(warnings.drop_last()) + "; "@ + warnings.last()@
    }
}

fn join_warnings(warnings: &Vec<String>) -> (r: String)
    ensures
        r@ == joined_warnings(warnings@),
{
    let mut text = String::new();
    let mut i: usize = 0;
    while i < warnings.len()
        invariant
            i <= warnings@.len(),
            text@ == joined_warnings(warnings@.take(i as int)),
        decreases warnings@.len() - i,
    {
        let ghost before = text@;
        if i > 0 {
            text.append("; ");
        }
        text.append(warnings[i].as_str());
        proof {
            assert(warnings@.take(i + 1).drop_last() =~= warnings@.take(i as int));
            if i == 0 {
                assert(text@ =~= warnings@[0]@);
            } else {
                assert(text@ =~= before + "; "@ + warnings@[i as int]@);
            }
        }
        i += 1;
    }
    assert(warnings@.take(i as int) =~= warnings@);
    text
}

/// Whether the shortcuts that were read again are taken on, and why not. Only what
/// was written and read back without a warning is.
pub fn persist_shortcut_binding(outcome: &BindingOutcome) -> (r: Result<(), String>)
    ensures
        match outcome {
            BindingOutcome::Refused(cause) => r matches Err(told) && told@ == cause@,
            BindingOutcome::NoDirectory => r matches Err(told) && told@
                == "config directory unavailable"@,
            BindingOutcome::NotWritten(cause) => r matches Err(told) && told@ == cause@,
            BindingOutcome::Reloaded(warnings) => if warnings@.len() == 0 {
                r is Ok
            } else {
                r matches Err(told) && told@ == joined_warnings(warnings@)
            },
        },
{
    match outcome {
        BindingOutcome::Refused(cause) | BindingOutcome::NotWritten(cause) => Err(
            cause.as_str().to_owned(),
        ),
        BindingOutcome::NoDirectory => Err("config directory unavailable".to_owned()),
        BindingOutcome::Reloaded(warnings) => if warnings.len() == 0 {
            Ok(())
        } else {
            Err(join_warnings(warnings))
        },
    }
}

/// No two commands do the same thing.
pub proof fn lemma_commands_differ(a: ShortcutCommand, b: ShortcutCommand)
    requires
        a != b,
    ensures
        action_of(a) != action_of(b),
        terminal_request(a) is Some ==> terminal_request(a) != terminal_request(b),
        browser_request(a) is Some ==> browser_request(a) != browser_request(b),
{
}

/// A command to move the focus moves it the way it says, next and previous go one
/// step forth and back, and a numbered workspace is counted from one.
pub proof fn lemma_commands_go_their_way()
    ensures
        action_of(ShortcutCommand::FocusLeft) == ShortcutAction::FocusPane(Direction::Left),
        action_of(ShortcutCommand::FocusRight) == ShortcutAction::FocusPane(Direction::Right),
        action_of(ShortcutCommand::FocusUp) == ShortcutAction::FocusPane(Direction::Up),
        action_of(ShortcutCommand::FocusDown) == ShortcutAction::FocusPane(Direction::Down),
        action_of(ShortcutCommand::NextWorkspace) matches ShortcutAction::CycleWorkspace(step)
            && step == 1,
        action_of(ShortcutCommand::PrevWorkspace) matches ShortcutAction::CycleWorkspace(step)
            && step == -1,
        action_of(ShortcutCommand::CycleTabNext) matches ShortcutAction::CycleTab(step) && step
            == 1,
        action_of(ShortcutCommand::CycleTabPrev) matches ShortcutAction::CycleTab(step) && step
            == -1,
        forall|n: int|
            1 <= n <= 8 ==> action_of(#[trigger] numbered_workspace(n))
                == ShortcutAction::ActivateWorkspace((n - 1) as usize),
        action_of(ShortcutCommand::ActivateLastWorkspace) == ShortcutAction::ActivateLastWorkspace,
{
}

/// The command for a workspace by its number, counted from one.
pub open spec fn numbered_workspace(n: int) -> ShortcutCommand {
    if n == 1 {
        ShortcutCommand::ActivateWorkspace1
    } else if n == 2 {
        ShortcutCommand::ActivateWorkspace2
    } else if n == 3 {
        ShortcutCommand::ActivateWorkspace3
    } else if n == 4 {
        ShortcutCommand::ActivateWorkspace4
    } else if n == 5 {
        ShortcutCommand::ActivateWorkspace5
    } else if n == 6 {
        ShortcutCommand::ActivateWorkspace6
    } else if n == 7 {
        ShortcutCommand::ActivateWorkspace7
    } else {
        ShortcutCommand::ActivateWorkspace8
    }
}

/// A split to the right puts panes side by side, one downwards puts them one above
/// the other, and a browser opens to the right. The new pane always comes behind the
/// old one, with its first tab, and the split is kept.
pub proof fn lemma_splits_open_behind(command: ShortcutCommand)
    ensures
        split_of(command) matches Some(split) ==> {
            &&& !split.options.new_pane_first
            &&& !split.options.skip_default_tab
            &&& split.options.persist
            &&& split.orientation == Orientation::Vertical <==> command
                == ShortcutCommand::SplitDown
            &&& action_of(command) matches ShortcutAction::SplitFocused(orientation) ==> orientation
                == split.orientation
        },
        split_of(command) is Some <==> command == ShortcutCommand::SplitDown || command
            == ShortcutCommand::SplitRight || command == ShortcutCommand::OpenBrowserInSplit,
        action_of(command) is SplitFocused <==> command == ShortcutCommand::SplitDown || command
            == ShortcutCommand::SplitRight,
{
}

/// Searching is asked of a terminal and of a browser alike, under the same name, and
/// a command that only one of them knows is asked of that one.
pub proof fn lemma_requests_go_by_name(command: ShortcutCommand)
    ensures
        action_of(command) is TerminalOrBrowser <==> terminal_request(command) is Some
            && browser_request(command) is Some,
        action_of(command) is Terminal <==> terminal_request(command) is Some && browser_request(
            command,
        ) is None,
        browser_request(command) is Some ==> action_of(command) is Browser || action_of(
            command,
        ) is TerminalOrBrowser,
        terminal_request(command) == Some(TerminalRequest::FindNext) <==> browser_request(command)
            == Some(BrowserRequest::FindNext),
        terminal_request(command) == Some(TerminalRequest::FindPrevious) <==> browser_request(
            command,
        ) == Some(BrowserRequest::FindPrevious),
        terminal_request(command) == Some(TerminalRequest::HideFind) <==> browser_request(command)
            == Some(BrowserRequest::HideFind),
        terminal_request(command) == Some(TerminalRequest::ShowFind) <==> browser_request(command)
            == Some(BrowserRequest::ShowFind),
        terminal_request(command) == Some(TerminalRequest::UseSelectionForFind)
            <==> browser_request(command) == Some(BrowserRequest::UseSelectionForFind),
        terminal_request(ShortcutCommand::SurfaceFindNext) == Some(TerminalRequest::FindNext),
        terminal_request(ShortcutCommand::SurfaceFindPrevious) == Some(
            TerminalRequest::FindPrevious,
        ),
        terminal_request(ShortcutCommand::TerminalIncreaseFontSize) == Some(
            TerminalRequest::IncreaseFontSize,
        ),
        terminal_request(ShortcutCommand::TerminalDecreaseFontSize) == Some(
            TerminalRequest::DecreaseFontSize,
        ),
        terminal_request(ShortcutCommand::TerminalResetFontSize) == Some(
            TerminalRequest::ResetFontSize,
        ),
        terminal_request(ShortcutCommand::TerminalCopy) == Some(TerminalRequest::CopySelection),
        terminal_request(ShortcutCommand::TerminalPaste) == Some(TerminalRequest::Paste),
        browser_request(ShortcutCommand::BrowserBack) == Some(BrowserRequest::Back),
        browser_request(ShortcutCommand::BrowserForward) == Some(BrowserRequest::Forward),
{
}

/// Warnings are shown in their order, with a mark between each two.
pub proof fn lemma_warnings_in_order(warnings: Seq<String>, more: Seq<String>)
    requires
        warnings.len() > 0,
        more.len() > 0,
    ensures
        joined_warnings(warnings + more) == joined_warnings(warnings) + "; "@ + joined_warnings(
            more,
        ),
        more.len() == 1 ==> joined_warnings(more) == more[0]@,
    decreases more.len(),
{
    let all = warnings + more;
    assert(all.drop_last() =~= warnings + more.drop_last());
    assert(all.last() == more.last());
    if more.len() == 1 {
        assert(all.drop_last() =~= warnings);
    } else {
        lemma_warnings_in_order(warnings, more.drop_last());
        assert(joined_warnings(all) =~= joined_warnings(warnings) + "; "@ + joined_warnings(more));
    }
}

/// A command counts as handled whatever comes of it, unless it starts another
/// instance or is passed to a terminal or a browser. Walking through matches means
/// going to the next one, to the previous one, or ending the search.
pub proof fn lemma_what_counts_as_handled(command: ShortcutCommand)
    ensures
        always_handled(command) <==> command != ShortcutCommand::NewInstance && command
            != ShortcutCommand::OpenBrowserInSplit && terminal_request(command) is None
            && browser_request(command) is None,
        is_find_navigation(command) <==> terminal_request(command) == Some(
            TerminalRequest::FindNext,
        ) || terminal_request(command) == Some(TerminalRequest::FindPrevious) || terminal_request(
            command,
        ) == Some(TerminalRequest::HideFind),
        terminal_request(command) matches Some(request) ==> (request_action(request) is Some
            <==> command == ShortcutCommand::TerminalClearScrollback || command
            == ShortcutCommand::TerminalPaste),
        request_action(TerminalRequest::ClearScreen) == Some("clear_screen"@),
        request_action(TerminalRequest::Paste) == Some("paste_from_clipboard"@),
{
}

} // verus!
