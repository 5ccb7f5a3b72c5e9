//! The context menu of a terminal.
use vstd::prelude::*;
use vstd::string::*;

use crate::terminal::surface::SurfaceMap;

verus! {

/// Milliseconds between closing the menu and opening the shortcut editor.
pub const KEYBINDS_DELAY_MS: u64 = 80;

/// Which workspace and surface a terminal belongs to.
#[derive(Clone, Debug, PartialEq, Eq)]
pub struct TerminalIdentity {
    pub workspace_id: Option<String>,
    pub surface_id: String,
}

/// A line of the menu.
#[derive(Clone, Copy, Debug, PartialEq, Eq, Structural)]
pub enum MenuItem {
    Copy,
    CopyUrl,
    Paste,
    Separator,
    Ids,
    Browser,
    SplitRight,
    SplitDown,
    Keybinds,
    Clear,
}

/// A line of the menu, and whether it can be chosen.
#[derive(Clone, Copy, Debug, PartialEq, Eq, Structural)]
pub struct MenuEntry {
    pub item: MenuItem,
    pub enabled: bool,
}

pub open spec fn choosable(item: MenuItem) -> MenuEntry {
    MenuEntry { item, enabled: true }
}

pub open spec fn separator() -> MenuEntry {
    MenuEntry { item: MenuItem::Separator, enabled: false }
}

/// The lines of the menu: copying needs a selection, and there is a line for an
/// address only where the pointer is on one.
pub open spec fn menu(has_selection: bool, has_url: bool) -> Seq<MenuEntry> {
    let copy = MenuEntry { item: MenuItem::Copy, enabled: has_selection };
    let first = if has_url {
        seq![copy, choosable(MenuItem::CopyUrl)]
    } else {
        seq![copy]
    };
    first + seq![
        choosable(MenuItem::Paste),
        separator(),
        choosable(MenuItem::Ids),
        separator(),
        choosable(MenuItem::Browser),
        choosable(MenuItem::SplitRight),
        choosable(MenuItem::SplitDown),
        choosable(MenuItem::Keybinds),
        separator(),
        choosable(MenuItem::Clear),
    ]
}

fn entry(item: MenuItem, enabled: bool) -> (r: MenuEntry)
    ensures
        r == (MenuEntry { item, enabled }),
{
    MenuEntry { item, enabled }
}

/// The lines of the menu, from top to bottom.
pub fn context_menu_items(has_selection: bool, has_url: bool) -> (r: Vec<MenuEntry>)
    ensures
        r@ == menu(has_selection, has_url),
{
    let mut items: Vec<MenuEntry> = Vec::new();
    items.push(entry(MenuItem::Copy, has_selection));
    if has_url {
        items.push(entry(MenuItem::CopyUrl, true));
    }
    items.push(entry(MenuItem::Paste, true));
    items.push(entry(MenuItem::Separator, false));
    items.push(entry(MenuItem::Ids, true));
    items.push(entry(MenuItem::Separator, false));
    items.push(entry(MenuItem::Browser, true));
    items.push(entry(MenuItem::SplitRight, true));
    items.push(entry(MenuItem::SplitDown, true));
    items.push(entry(MenuItem::Keybinds, true));
    items.push(entry(MenuItem::Separator, false));
    items.push(entry(MenuItem::Clear, true));
    assert(items@ =~= menu(has_selection, has_url));
    items
}

impl MenuItem {
    /// The text of a line; a separator has none.
    pub open spec fn text(self) -> Option<Seq<char>> {
        match self {
            MenuItem::Copy => Some("Copy"@),
            MenuItem::CopyUrl => Some("Copy URL"@),
            MenuItem::Paste => Some("Paste"@),
            MenuItem::Separator => None,
            MenuItem::Ids => Some("IDs >"@),
            MenuItem::Browser => Some("Browser"@),
            MenuItem::SplitRight => Some("Split Right"@),
            MenuItem::SplitDown => Some("Split Down"@),
            MenuItem::Keybinds => Some("Keybinds"@),
            MenuItem::Clear => Some("Clear"@),
        }
    }

    pub fn label(self) -> (r: Option<&'static str>)
        ensures
            self.text() == (match r {
                Some(s) => Some(s@),
                None => None,
            }),
    {
        match self {
            MenuItem::Copy => Some("Copy"),
            MenuItem::CopyUrl => Some("Copy URL"),
            MenuItem::Paste => Some("Paste"),
            MenuItem::Separator => None,
            MenuItem::Ids => Some("IDs >"),
            MenuItem::Browser => Some("Browser"),
            MenuItem::SplitRight => Some("Split Right"),
            MenuItem::SplitDown => Some("Split Down"),
            MenuItem::Keybinds => Some("Keybinds"),
            MenuItem::Clear => Some("Clear"),
        }
    }
}

/// What choosing a line does.
#[derive(Debug, PartialEq)]
pub enum MenuEffect {
    /// The menu stays, with the list of identifiers beside it.
    ShowIds,
    /// The menu closes, and nothing else.
    Close,
    /// The menu closes and the terminal performs an action.
    Perform(&'static str),
    /// The menu closes, a text goes to both clipboards, and a notice appears.
    CopyText(String),
    OpenBrowser,
    SplitRight,
    SplitDown,
    /// The menu closes, and after a moment the shortcut editor opens.
    OpenKeybinds,
}

/// What choosing a line does. `url` is the address under the pointer.
pub fn choose_menu_item(item: MenuItem, url: Option<&str>) -> (r: MenuEffect)
    ensures
        match item {
            MenuItem::Copy => r matches MenuEffect::Perform(action) && action@
                == "copy_to_clipboard"@,
            MenuItem::CopyUrl => match url {
                Some(url) => r matches MenuEffect::CopyText(text) && text@ == url@,
                None => r is Close,
            },
            MenuItem::Paste => r matches MenuEffect::Perform(action) && action@
                == "paste_from_clipboard"@,
            MenuItem::Separator => r is Close,
            MenuItem::Ids => r is ShowIds,
            MenuItem::Browser => r is OpenBrowser,
            MenuItem::SplitRight => r is SplitRight,
            MenuItem::SplitDown => r is SplitDown,
            MenuItem::Keybinds => r is OpenKeybinds,
            MenuItem::Clear => r matches MenuEffect::Perform(action) && action@ == "clear_screen"@,
        },
{
    match item {
        MenuItem::Copy => MenuEffect::Perform("copy_to_clipboard"),
        MenuItem::CopyUrl => match url {
            Some(url) => MenuEffect::CopyText(url.to_owned()),
            None => MenuEffect::Close,
        },
        MenuItem::Paste => MenuEffect::Perform("paste_from_clipboard"),
        MenuItem::Separator => MenuEffect::Close,
        MenuItem::Ids => MenuEffect::ShowIds,
        MenuItem::Browser => MenuEffect::OpenBrowser,
        MenuItem::SplitRight => MenuEffect::SplitRight,
        MenuItem::SplitDown => MenuEffect::SplitDown,
        MenuItem::Keybinds => MenuEffect::OpenKeybinds,
        MenuItem::Clear => MenuEffect::Perform("clear_screen"),
    }
}

impl TerminalIdentity {
    /// Whether the workspace's identifier can be copied.
    pub fn can_copy_workspace_id(&self) -> (r: bool)
        ensures
            r == (self.workspace_id is Some),
    {
        self.workspace_id.is_some()
    }

    /// What copying the workspace's identifier does.
    pub fn copy_workspace_id(&self) -> (r: MenuEffect)
        ensures
            match self.workspace_id {
                Some(id) => r matches MenuEffect::CopyText(text) && text@ == id@,
                None => r is Close,
            },
    {
        match &self.workspace_id {
            Some(id) => MenuEffect::CopyText(id.clone()),
            None => MenuEffect::Close,
        }
    }

    /// What copying the surface's identifier does.
    pub fn copy_surface_id(&self) -> (r: MenuEffect)
        ensures
            r matches MenuEffect::CopyText(text) && text@ == self.surface_id@,
    {
        MenuEffect::CopyText(self.surface_id.clone())
    }
}

/// A step of asking a terminal for the address under the pointer.
#[derive(Clone, Copy, Debug, PartialEq, Eq, Structural)]
pub enum ProbeStep {
    /// Catch what the terminal copies.
    Begin,
    /// Move the pointer off the surface; with the control key, or with the keys
    /// that are held.
    Leave { control: bool },
    /// Move the pointer back.
    Return { control: bool },
    CopyUrl,
    /// Hand out what was caught.
    End,
    HideLink,
}

/// The steps of a probe: the pointer leaves and comes back with the control key
/// held, since a move to where it is would not be seen; the address is copied and
/// caught; the pointer is put back as it was.
pub open spec fn probe_steps() -> Seq<ProbeStep> {
    seq![
        ProbeStep::Begin,
        ProbeStep::Leave { control: true },
        ProbeStep::Return { control: true },
        ProbeStep::CopyUrl,
        ProbeStep::End,
        ProbeStep::Leave { control: false },
        ProbeStep::Return { control: false },
        ProbeStep::HideLink,
    ]
}

/// How to ask for the address under the pointer. There is no asking without a
/// surface that is shown, nor while the program in it takes the mouse, which
/// would see the moves.
pub fn url_at_position(surface: Option<usize>, mouse_captured: bool, surfaces: &SurfaceMap) -> (r:
    Option<Vec<ProbeStep>>)
    ensures
        match surface {
            Some(key) if !mouse_captured && surfaces.live().contains_key(key) => r matches Some(
                steps,
            ) && steps@ == probe_steps(),
            _ => r is None,
        },
{
    match surface {
        Some(key) => {
            if mouse_captured || !surfaces.surface_is_registered(key) {
                return None;
            }
            let steps = vec![
                ProbeStep::Begin,
                ProbeStep::Leave { control: true },
                ProbeStep::Return { control: true },
                ProbeStep::CopyUrl,
                ProbeStep::End,
                ProbeStep::Leave { control: false },
                ProbeStep::Return { control: false },
                ProbeStep::HideLink,
            ];
            assert(steps@ =~= probe_steps());
            Some(steps)
        },
        None => None,
    }
}

/// Every menu has one line for each thing that can be done, in the same order. A
/// selection changes nothing but whether its text can be copied, and an address
/// under the pointer adds the line that copies it, right behind that.
pub proof fn lemma_menu_follows_pointer(has_selection: bool, has_url: bool, item: MenuItem)
    ensures
        ({
            let lines = menu(has_selection, has_url);
            &&& lines[0].item == MenuItem::Copy
            &&& lines[0].enabled == has_selection
            &&& forall|i: int|
                0 < i < lines.len() ==> (#[trigger] lines[i]).enabled == (lines[i].item
                    != MenuItem::Separator)
            &&& menu(true, has_url).skip(1) == menu(false, has_url).skip(1)
            &&& menu(has_selection, true) == menu(has_selection, false).insert(
                1,
                MenuEntry { item: MenuItem::CopyUrl, enabled: true },
            )
            &&& forall|i: int, j: int|
                0 <= i < j < lines.len() && (#[trigger] lines[i]).item != MenuItem::Separator
                    ==> lines[i].item != (#[trigger] lines[j]).item
            &&& (exists|i: int| 0 <= i < lines.len() && (#[trigger] lines[i]).item == item) <==> (
            has_url || item != MenuItem::CopyUrl)
            &&& lines.last().item == MenuItem::Clear
        }),
{
    assert(menu(true, has_url).skip(1) =~= menu(false, has_url).skip(1));
    assert(menu(has_selection, true) =~= menu(has_selection, false).insert(
        1,
        MenuEntry { item: MenuItem::CopyUrl, enabled: true },
    ));
    let lines = menu(has_selection, has_url);
    let k: int = if has_url {
        1
    } else {
        0
    };
    assert(lines[1 + k].item == MenuItem::Paste && lines[2 + k].item == MenuItem::Separator);
    assert(lines[3 + k].item == MenuItem::Ids && lines[4 + k].item == MenuItem::Separator);
    assert(lines[5 + k].item == MenuItem::Browser && lines[6 + k].item == MenuItem::SplitRight);
    assert(lines[7 + k].item == MenuItem::SplitDown && lines[8 + k].item == MenuItem::Keybinds);
    assert(lines[9 + k].item == MenuItem::Separator && lines[10 + k].item == MenuItem::Clear);
    let i: int = match item {
        MenuItem::Copy => 0,
        MenuItem::CopyUrl => 1,
        MenuItem::Paste => 1 + k,
        MenuItem::Separator => 2 + k,
        MenuItem::Ids => 3 + k,
        MenuItem::Browser => 5 + k,
        MenuItem::SplitRight => 6 + k,
        MenuItem::SplitDown => 7 + k,
        MenuItem::Keybinds => 8 + k,
        MenuItem::Clear => 10 + k,
    };
    assert(has_url || item != MenuItem::CopyUrl ==> lines[i].item == item);
}

/// No two lines of the menu look the same.
pub proof fn lemma_labels_differ(a: MenuItem, b: MenuItem)
    requires
        a.text() == b.text(),
    ensures
        a == b,
{
    reveal_strlit("Copy");
    reveal_strlit("Copy URL");
    reveal_strlit("Paste");
    reveal_strlit("IDs >");
    reveal_strlit("Browser");
    reveal_strlit("Split Right");
    reveal_strlit("Split Down");
    reveal_strlit("Keybinds");
    reveal_strlit("Clear");
    if a.text() is Some && b.text() is Some {
        let t = a.text()->0;
        assert(t.len() == b.text()->0.len());
        assert(t[0] == b.text()->0[0]);
        assert(t[1] == b.text()->0[1]);
    }
}

/// A probe of the address under the pointer looks while the control key is held and
/// the pointer has come back, catches what it copies, and leaves the pointer where
/// it was, without the key.
pub proof fn lemma_probe_puts_the_pointer_back()
    ensures
        ({
            let steps = probe_steps();
            &&& forall|i: int|
                0 <= i < steps.len() && #[trigger] steps[i] == ProbeStep::CopyUrl ==> {
                    &&& i > 0
                    &&& steps[i - 1] == (ProbeStep::Return { control: true })
                    &&& i + 1 < steps.len()
                    &&& steps[i + 1] == ProbeStep::End
                }
            &&& steps.contains(ProbeStep::CopyUrl)
            &&& steps[0] == ProbeStep::Begin
            &&& forall|i: int|
                0 <= i < steps.len() && #[trigger] steps[i] is Leave ==> i + 1 < steps.len()
                    && steps[i + 1] == (ProbeStep::Return { control: steps[i]->Leave_control })
            &&& forall|i: int|
                0 <= i < steps.len() && #[trigger] steps[i] is Return ==> exists|j: int|
                    i <= j < steps.len() && #[trigger] steps[j] == (ProbeStep::Return {
                        control: false,
                    })
        }),
{
    let steps = probe_steps();
    assert(steps[3] == ProbeStep::CopyUrl);
    assert(steps[6] == (ProbeStep::Return { control: false }));
}

} // verus!
