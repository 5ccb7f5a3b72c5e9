//! What the rest of the host asks of a terminal: text, keys, searches.
use vstd::prelude::*;
use vstd::string::*;

verus! {

/// A terminal as the rest of the host sees it.
#[derive(Debug, PartialEq)]
pub struct TerminalHandle {
    /// Address of the surface, once it exists.
    pub surface: Option<usize>,
    /// The search bar is open.
    pub search_mode: bool,
    /// The text in the search bar.
    pub search_text: String,
}

/// Size and state of a terminal.
#[derive(Clone, Copy, Debug, PartialEq, Eq, Structural)]
pub struct TerminalHealth {
    pub realized: bool,
    pub process_exited: bool,
    pub columns: u16,
    pub rows: u16,
    pub width_px: u32,
    pub height_px: u32,
}

/// What a request does.
#[derive(Debug, PartialEq)]
pub enum HandleEffect {
    QueueRender,
    /// Tell the surface that its display is there, and its size.
    RefreshRealized(usize),
    GrabFocus,
    /// An action of the surface.
    Perform { surface: usize, action: String },
    /// Text for the surface, as if pasted.
    SendText { surface: usize, text: String },
    SetSearchMode(bool),
    SetSearchText(String),
    FocusSearchEntry,
    SelectSearchText,
}

/// What a [`HandleEffect`] stands for.
pub ghost enum HandleEffectView {
    QueueRender,
    RefreshRealized(usize),
    GrabFocus,
    Perform { surface: usize, action: Seq<char> },
    SendText { surface: usize, text: Seq<char> },
    SetSearchMode(bool),
    SetSearchText(Seq<char>),
    FocusSearchEntry,
    SelectSearchText,
}

impl View for HandleEffect {
    type V = HandleEffectView;

    open spec fn view(&self) -> HandleEffectView {
        match self {
            HandleEffect::QueueRender => HandleEffectView::QueueRender,
            HandleEffect::RefreshRealized(surface) => HandleEffectView::RefreshRealized(*surface),
            HandleEffect::GrabFocus => HandleEffectView::GrabFocus,
            HandleEffect::Perform { surface, action } => HandleEffectView::Perform {
                surface: *surface,
                action: action@,
            },
            HandleEffect::SendText { surface, text } => HandleEffectView::SendText {
                surface: *surface,
                text: text@,
            },
            HandleEffect::SetSearchMode(on) => HandleEffectView::SetSearchMode(*on),
            HandleEffect::SetSearchText(text) => HandleEffectView::SetSearchText(text@),
            HandleEffect::FocusSearchEntry => HandleEffectView::FocusSearchEntry,
            HandleEffect::SelectSearchText => HandleEffectView::SelectSearchText,
        }
    }
}

/// The views of a list of effects.
pub open spec fn effect_views(effects: Seq<HandleEffect>) -> Seq<HandleEffectView> {
    Seq::new(effects.len(), |i: int| effects[i]@)
}

/// An action of the surface; nothing without one.
pub open spec fn performed(surface: Option<usize>, action: Seq<char>) -> Seq<HandleEffectView> {
    match surface {
        Some(surface) => seq![HandleEffectView::Perform { surface, action }],
        None => Seq::empty(),
    }
}

/// The action that searches for a text.
pub fn terminal_search_action(query: &str) -> (r: String)
    ensures
        r@ == "search:"@ + query@,
{
    let mut action = "search:".to_owned();
    action.append(query);
    action
}

/// The action that scrolls to a row.
pub fn scroll_to_row_action(row: usize) -> (r: String)
    ensures
        r@ == "scroll_to_row:"@ + crate::text::decimal_text(row as nat),
{
    let mut action = "scroll_to_row:".to_owned();
    action.append(crate::text::decimal(row as u128).as_str());
    action
}

/// The action that sets the font size, given as text.
pub fn set_font_size_action(size: &str) -> (r: String)
    ensures
        r@ == "set_font_size:"@ + size@,
{
    let mut action = "set_font_size:".to_owned();
    action.append(size);
    action
}

fn perform(effects: &mut Vec<HandleEffect>, surface: Option<usize>, action: String)
    ensures
        effect_views(final(effects)@) == effect_views(old(effects)@) + performed(surface, action@),
{
    let ghost before = effect_views(effects@);
    if let Some(surface) = surface {
        effects.push(HandleEffect::Perform { surface, action });
    }
    proof {
        assert(effect_views(effects@) =~= before + performed(surface, action@));
    }
}

fn emit(effects: &mut Vec<HandleEffect>, effect: HandleEffect)
    ensures
        effect_views(final(effects)@) == effect_views(old(effects)@).push(effect@),
{
    let ghost before = effect_views(effects@);
    effects.push(effect);
    proof {
        assert(effect_views(effects@) =~= before.push(effect@));
    }
}

impl TerminalHandle {
    pub open spec fn refreshed(self) -> HandleEffectView {
        match self.surface {
            Some(surface) => HandleEffectView::RefreshRealized(surface),
            None => HandleEffectView::QueueRender,
        }
    }

    /// Draws the terminal anew.
    pub fn refresh_display(&self) -> (r: HandleEffect)
        ensures
            r@ == self.refreshed(),
    {
        match self.surface {
            Some(surface) => HandleEffect::RefreshRealized(surface),
            None => HandleEffect::QueueRender,
        }
    }

    /// Gives the terminal the focus.
    pub fn focus_surface(&self) -> (r: (bool, Vec<HandleEffect>))
        ensures
            r.0,
            effect_views(r.1@) == seq![self.refreshed(), HandleEffectView::GrabFocus],
    {
        let mut effects: Vec<HandleEffect> = Vec::new();
        emit(&mut effects, self.refresh_display());
        emit(&mut effects, HandleEffect::GrabFocus);
        assert(effect_views(effects@) =~= seq![self.refreshed(), HandleEffectView::GrabFocus]);
        (true, effects)
    }

    /// Performs an action. Says whether there is a surface to perform it.
    pub fn perform_binding_action(&self, action: &str) -> (r: (bool, Vec<HandleEffect>))
        ensures
            r.0 == (self.surface is Some),
            effect_views(r.1@) == performed(self.surface, action@),
    {
        let mut effects: Vec<HandleEffect> = Vec::new();
        perform(&mut effects, self.surface, action.to_owned());
        assert(effect_views(effects@) =~= performed(self.surface, action@));
        (self.surface.is_some(), effects)
    }

    /// Copies what is selected. Says whether anything is.
    pub fn copy_selection_to_clipboard(&self, has_selection: bool) -> (r: (
        bool,
        Vec<HandleEffect>,
    ))
        ensures
            r.0 == (self.surface is Some && has_selection),
            effect_views(r.1@) == (if has_selection {
                performed(self.surface, "copy_to_clipboard"@)
            } else {
                Seq::empty()
            }),
    {
        if self.surface.is_none() || !has_selection {
            let effects: Vec<HandleEffect> = Vec::new();
            assert(effect_views(effects@) =~= Seq::empty());
            return (false, effects);
        }
        self.perform_binding_action("copy_to_clipboard")
    }

    /// Sends text, as if pasted. Says whether there is a surface to take it.
    pub fn send_text(&self, text: &str) -> (r: (bool, Vec<HandleEffect>))
        ensures
            r.0 == (self.surface is Some),
            effect_views(r.1@) == (match self.surface {
                Some(surface) => seq![HandleEffectView::SendText { surface, text: text@ }],
                None => Seq::empty(),
            }),
    {
        let mut effects: Vec<HandleEffect> = Vec::new();
        if let Some(surface) = self.surface {
            emit(&mut effects, HandleEffect::SendText { surface, text: text.to_owned() });
        }
        assert(effect_views(effects@) =~= (match self.surface {
            Some(surface) => seq![HandleEffectView::SendText { surface, text: text@ }],
            None => Seq::empty(),
        }));
        (self.surface.is_some(), effects)
    }

    /// Size and state; all zero before there is a surface.
    pub fn health(
        &self,
        process_exited: bool,
        columns: u16,
        rows: u16,
        width_px: u32,
        height_px: u32,
    ) -> (r: TerminalHealth)
        ensures
            r == (if self.surface is Some {
                TerminalHealth {
                    realized: true,
                    process_exited,
                    columns,
                    rows,
                    width_px,
                    height_px,
                }
            } else {
                TerminalHealth {
                    realized: false,
                    process_exited: false,
                    columns: 0,
                    rows: 0,
                    width_px: 0,
                    height_px: 0,
                }
            }),
    {
        if self.surface.is_none() {
            return TerminalHealth {
                realized: false,
                process_exited: false,
                columns: 0,
                rows: 0,
                width_px: 0,
                height_px: 0,
            };
        }
        TerminalHealth { realized: true, process_exited, columns, rows, width_px, height_px }
    }

    /// The text on the screen, given the bytes that the surface read, if it read
    /// any.
    pub fn read_viewport_text(&self, bytes: Option<&[u8]>) -> (r: Option<String>)
        ensures
            r matches Some(text) && text@ == (match (self.surface, bytes) {
                (Some(_), Some(bytes)) => crate::text::lossy_text(bytes@),
                _ => Seq::<char>::empty(),
            }),
    {
        Some(self.read_text(bytes))
    }

    fn read_text(&self, bytes: Option<&[u8]>) -> (r: String)
        ensures
            r@ == (match (self.surface, bytes) {
                (Some(_), Some(bytes)) => crate::text::lossy_text(bytes@),
                _ => Seq::<char>::empty(),
            }),
    {
        match (self.surface, bytes) {
            (Some(_), Some(bytes)) => crate::text::decode_lossy(bytes),
            _ => String::new(),
        }
    }

    /// What is selected, given the bytes that the surface read, if it read any.
    pub fn read_selection_text(&self, bytes: Option<&[u8]>) -> (r: String)
        ensures
            r@ == (match (self.surface, bytes) {
                (Some(_), Some(bytes)) => crate::text::lossy_text(bytes@),
                _ => Seq::<char>::empty(),
            }),
    {
        self.read_text(bytes)
    }

    /// Opens the search bar. A text that is in it already is searched for.
    pub fn show_find(&mut self) -> (r: (bool, Vec<HandleEffect>))
        ensures
            r.0,
            *final(self) == (TerminalHandle { search_mode: true, ..*old(self) }),
            effect_views(r.1@) == seq![
                HandleEffectView::SetSearchMode(true),
                HandleEffectView::FocusSearchEntry,
                HandleEffectView::SelectSearchText,
            ] + (if old(self).search_text@.len() > 0 {
                performed(old(self).surface, "search:"@ + old(self).search_text@)
            } else {
                Seq::empty()
            }),
    {
        self.search_mode = true;
        let mut effects: Vec<HandleEffect> = Vec::new();
        emit(&mut effects, HandleEffect::SetSearchMode(true));
        emit(&mut effects, HandleEffect::FocusSearchEntry);
        emit(&mut effects, HandleEffect::SelectSearchText);
        let ghost opening = effect_views(effects@);
        assert(opening =~= seq![
            HandleEffectView::SetSearchMode(true),
            HandleEffectView::FocusSearchEntry,
            HandleEffectView::SelectSearchText,
        ]);
        if !self.search_text.as_str().is_empty() {
            perform(&mut effects, self.surface, terminal_search_action(self.search_text.as_str()));
        }
        assert(opening + Seq::empty() =~= opening);
        (true, effects)
    }

    /// Whether a search is under way.
    pub open spec fn searching(self) -> bool {
        self.search_mode && self.search_text@.len() > 0
    }

    fn navigate(&self, action: &str) -> (r: (bool, Vec<HandleEffect>))
        ensures
            r.0 == (self.searching() && self.surface is Some),
            effect_views(r.1@) == (if self.searching() {
                performed(self.surface, action@)
            } else {
                Seq::empty()
            }),
    {
        if !self.search_mode || self.search_text.as_str().is_empty() {
            let effects: Vec<HandleEffect> = Vec::new();
            assert(effect_views(effects@) =~= Seq::empty());
            return (false, effects);
        }
        self.perform_binding_action(action)
    }

    /// Goes to the next match of a search that is under way.
    pub fn find_next(&self) -> (r: (bool, Vec<HandleEffect>))
        ensures
            r.0 == (self.searching() && self.surface is Some),
            effect_views(r.1@) == (if self.searching() {
                performed(self.surface, "navigate_search:next"@)
            } else {
                Seq::empty()
            }),
    {
        self.navigate("navigate_search:next")
    }

    /// Goes to the previous match of a search that is under way.
    pub fn find_previous(&self) -> (r: (bool, Vec<HandleEffect>))
        ensures
            r.0 == (self.searching() && self.surface is Some),
            effect_views(r.1@) == (if self.searching() {
                performed(self.surface, "navigate_search:previous"@)
            } else {
                Seq::empty()
            }),
    {
        self.navigate("navigate_search:previous")
    }

    /// Closes the search bar. Says whether it was open.
    pub fn hide_find(&mut self) -> (r: (bool, Vec<HandleEffect>))
        ensures
            r.0 == old(self).search_mode,
            *final(self) == (TerminalHandle { search_mode: false, ..*old(self) }),
            effect_views(r.1@) == (if old(self).search_mode {
                performed(old(self).surface, "end_search"@) + seq![
                    HandleEffectView::SetSearchMode(false),
                    HandleEffectView::GrabFocus,
                ]
            } else {
                Seq::empty()
            }),
    {
        if !self.search_mode {
            let effects: Vec<HandleEffect> = Vec::new();
            assert(effect_views(effects@) =~= Seq::empty());
            return (false, effects);
        }
        self.search_mode = false;
        let (_, mut effects) = self.perform_binding_action("end_search");
        emit(&mut effects, HandleEffect::SetSearchMode(false));
        emit(&mut effects, HandleEffect::GrabFocus);
        assert(effect_views(effects@) =~= performed(self.surface, "end_search"@) + seq![
            HandleEffectView::SetSearchMode(false),
            HandleEffectView::GrabFocus,
        ]);
        (true, effects)
    }

    /// Searches for what is selected. Says whether anything is.
    pub fn use_selection_for_find(&mut self, selection: &str) -> (r: (bool, Vec<HandleEffect>))
        ensures
            r.0 == (selection@.len() > 0),
            final(self).surface == old(self).surface,
            r.0 ==> final(self).search_mode && final(self).search_text@ == selection@,
            !r.0 ==> *final(self) == *old(self),
            effect_views(r.1@) == (if r.0 {
                seq![
                    HandleEffectView::SetSearchMode(true),
                    HandleEffectView::SetSearchText(selection@),
                    HandleEffectView::FocusSearchEntry,
                    HandleEffectView::SelectSearchText,
                ] + performed(old(self).surface, "search:"@ + selection@)
            } else {
                Seq::empty()
            }),
    {
        let mut effects: Vec<HandleEffect> = Vec::new();
        if selection.is_empty() {
            assert(effect_views(effects@) =~= Seq::empty());
            return (false, effects);
        }
        self.search_mode = true;
        self.search_text = selection.to_owned();
        emit(&mut effects, HandleEffect::SetSearchMode(true));
        emit(&mut effects, HandleEffect::SetSearchText(selection.to_owned()));
        emit(&mut effects, HandleEffect::FocusSearchEntry);
        emit(&mut effects, HandleEffect::SelectSearchText);
        assert(effect_views(effects@) =~= seq![
            HandleEffectView::SetSearchMode(true),
            HandleEffectView::SetSearchText(selection@),
            HandleEffectView::FocusSearchEntry,
            HandleEffectView::SelectSearchText,
        ]);
        perform(&mut effects, self.surface, terminal_search_action(selection));
        (true, effects)
    }

    /// Searches for what was typed into the search bar. Says whether there is a
    /// surface to search.
    pub fn search_changed(&mut self, query: &str) -> (r: (bool, Vec<HandleEffect>))
        ensures
            r.0 == (old(self).surface is Some),
            final(self).surface == old(self).surface,
            final(self).search_mode == old(self).search_mode,
            final(self).search_text@ == query@,
            effect_views(r.1@) == performed(old(self).surface, "search:"@ + query@),
    {
        self.search_text = query.to_owned();
        self.perform_binding_action(terminal_search_action(query).as_str())
    }
}

/// Without a surface no action is performed; with one it is performed there, once,
/// as it was given.
pub proof fn lemma_performed_on_its_surface(surface: Option<usize>, action: Seq<char>)
    ensures
        surface is None ==> performed(surface, action).len() == 0,
        surface matches Some(key) ==> performed(surface, action).len() == 1 && performed(
            surface,
            action,
        )[0] == (HandleEffectView::Perform { surface: key, action }),
{
}

/// A search is under way where the search bar is open and something is in it, and
/// not otherwise. A terminal with a surface is refreshed on that surface, one without
/// waits for its first frame.
pub proof fn lemma_handle_state(handle: TerminalHandle)
    ensures
        handle.searching() ==> handle.search_mode,
        handle.searching() ==> handle.search_text@.len() > 0,
        handle.search_mode && handle.search_text@.len() > 0 ==> handle.searching(),
        handle.surface matches Some(surface) ==> handle.refreshed()
            == HandleEffectView::RefreshRealized(surface),
        handle.surface is None ==> handle.refreshed() == HandleEffectView::QueueRender,
{
}

} // verus!
