//! Panes of a workspace: opening, emptying and closing them.
use vstd::arithmetic::power2::*;
use vstd::prelude::*;
use vstd::string::*;

use crate::app_config::{valid_font_size, AppConfig, MAX_FONT_SIZE, MIN_FONT_SIZE};
use crate::float_bits::{
    single_below, single_is_nan, single_rank, SINGLE_INFINITY, SINGLE_SIGN,
};
use crate::float_laws::{lemma_single_sum_is_rounded, single_measure};
use crate::float_ops::{add_singles, single_sum, units};
use crate::terminal::handle::set_font_size_action;
use crate::text::{optional_text, same};
use crate::window::shortcuts::{FONT_SIZE_STEP_DOWN, FONT_SIZE_STEP_UP};
use crate::window::workspaces::Workspaces;

verus! {

/// Why a pane is empty.
#[derive(Clone, Copy, Debug, PartialEq, Eq, Structural)]
pub enum PaneEmptyReason {
    ClosedLastTerminal,
    ClosedLastTab,
    /// Its last tab went to another pane.
    MovedLastTabOut,
}

/// Whether a workspace stays although its pane is empty: if that is wanted, and
/// the last terminal of its only pane was closed.
pub fn keep_workspace_open_after_empty_pane(
    enabled: bool,
    reason: PaneEmptyReason,
    is_only_pane: bool,
) -> (r: bool)
    ensures
        r == (enabled && reason == PaneEmptyReason::ClosedLastTerminal && is_only_pane),
{
    enabled && reason == PaneEmptyReason::ClosedLastTerminal && is_only_pane
}

/// What is done about an empty pane.
#[derive(Clone, Copy, Debug, PartialEq, Eq, Structural)]
pub enum EmptyPane {
    /// Keep it, and save the session.
    Keep,
    /// Remove it; `save` says whether the session is saved too.
    Remove { save: bool },
}

/// What is done about an empty pane. `single_pane` says whether its workspace, if
/// that exists, has no other.
pub fn on_empty_pane(
    config: &AppConfig,
    single_pane: Option<bool>,
    reason: PaneEmptyReason,
) -> (r: EmptyPane)
    ensures
        r == (if config.workspace.keep_open_after_last_terminal_closes && reason
            == PaneEmptyReason::ClosedLastTerminal && single_pane == Some(true) {
            EmptyPane::Keep
        } else {
            EmptyPane::Remove { save: reason != PaneEmptyReason::MovedLastTabOut }
        }),
        !config.workspace.keep_open_after_last_terminal_closes ==> r is Remove,
        r is Keep ==> reason == PaneEmptyReason::ClosedLastTerminal && single_pane == Some(true),
        reason == PaneEmptyReason::MovedLastTabOut ==> r == (EmptyPane::Remove { save: false }),
{
    let is_only_pane = match single_pane {
        Some(single) => single,
        None => false,
    };
    if keep_workspace_open_after_empty_pane(
        config.workspace.keep_open_after_last_terminal_closes,
        reason,
        is_only_pane,
    ) {
        return EmptyPane::Keep;
    }
    let save = match reason {
        PaneEmptyReason::ClosedLastTerminal | PaneEmptyReason::ClosedLastTab => true,
        PaneEmptyReason::MovedLastTabOut => false,
    };
    EmptyPane::Remove { save }
}

/// How a pane is removed.
#[derive(Clone, Copy, Debug, PartialEq, Eq, Structural)]
pub enum PaneRemoval {
    /// Its workspace does not exist: not at all.
    Nothing,
    /// With its workspace, of which it is the only pane.
    CloseWorkspace,
    /// Out of the splits of its workspace.
    RemoveFromTree,
}

/// How a pane is removed. `single_pane` says whether its workspace, if that
/// exists, has no other.
pub fn remove_pane(single_pane: Option<bool>) -> (r: PaneRemoval)
    ensures
        r == (match single_pane {
            None => PaneRemoval::Nothing,
            Some(true) => PaneRemoval::CloseWorkspace,
            Some(false) => PaneRemoval::RemoveFromTree,
        }),
{
    match single_pane {
        None => PaneRemoval::Nothing,
        Some(single) => if single {
            PaneRemoval::CloseWorkspace
        } else {
            PaneRemoval::RemoveFromTree
        },
    }
}

/// What follows when a pane was to be taken out of the splits.
#[derive(Clone, Copy, Debug, PartialEq, Eq, Structural)]
pub struct PaneRemoved {
    /// The pane and what is in it are shut down.
    pub retire: bool,
    /// The workspace counts its unread panes again.
    pub sync_unread: bool,
    pub save_session: bool,
}

/// What follows when a pane was to be taken out of the splits: nothing if it was
/// not among them. The session is saved if that was asked for.
pub fn pane_removed(removed: bool, persist: bool) -> (r: PaneRemoved)
    ensures
        r == (PaneRemoved {
            retire: removed,
            sync_unread: removed,
            save_session: removed && persist,
        }),
{
    PaneRemoved { retire: removed, sync_unread: removed, save_session: removed && persist }
}

/// Whether the focused pane can be closed: not if it is shown alone.
pub fn close_focused_pane(shown_alone: bool) -> (r: bool)
    ensures
        r == !shown_alone,
{
    !shown_alone
}

/// Whether the tab in use can be closed: not the last one of a pane that is shown
/// alone, unless its workspace may stay without it.
pub fn close_focused_tab(shown_alone: bool, tab_count: usize, config: &AppConfig) -> (r: bool)
    ensures
        r == !(shown_alone && tab_count <= 1
            && !config.workspace.keep_open_after_last_terminal_closes),
{
    !(shown_alone && tab_count <= 1 && !config.workspace.keep_open_after_last_terminal_closes)
}

/// What a split opens its new pane with.
#[derive(Clone, Copy, Debug, PartialEq, Eq, Structural)]
pub struct SplitPaneOptions {
    pub skip_default_tab: bool,
    pub new_pane_first: bool,
    pub persist: bool,
}

/// What comes of a split: whether there is a new pane, and whether the session is
/// saved.
pub fn split_pane(
    container_exists: bool,
    can_split: bool,
    split_done: bool,
    options: SplitPaneOptions,
) -> (r: (bool, bool))
    ensures
        r.0 == (container_exists && can_split && split_done),
        r.1 == (r.0 && options.persist),
{
    let opened = container_exists && can_split && split_done;
    (opened, opened && options.persist)
}

/// How a tab gets a pane of its own: with a split that leaves the new pane empty
/// and the session unsaved until the tab is there. Only a tab that exists does.
pub fn split_with_tab(tab_exists: bool, new_pane_first: bool) -> (r: Option<SplitPaneOptions>)
    ensures
        r == (if tab_exists {
            Some(SplitPaneOptions { skip_default_tab: true, new_pane_first, persist: false })
        } else {
            None
        }),
{
    if tab_exists {
        Some(SplitPaneOptions { skip_default_tab: true, new_pane_first, persist: false })
    } else {
        None
    }
}

/// Whether the session is saved after a tab was to get a pane of its own: once the
/// split was made and the tab has moved.
pub fn save_after_split_with_tab(split_done: bool, tab_moved: bool) -> (r: bool)
    ensures
        r == (split_done && tab_moved),
{
    split_done && tab_moved
}

/// A font size moved between 1 and 255. What is no number stays.
pub open spec fn bounded_font_size(bits: u32) -> u32 {
    if single_is_nan(bits) {
        bits
    } else if single_rank(bits) < single_rank(MIN_FONT_SIZE) {
        MIN_FONT_SIZE
    } else if single_rank(bits) > single_rank(MAX_FONT_SIZE) {
        MAX_FONT_SIZE
    } else {
        bits
    }
}

/// The font size in use: the default where none is set.
pub open spec fn size_in_use(current: Option<u32>, default: u32) -> u32 {
    match current {
        Some(size) => size,
        None => default,
    }
}

/// The font size after a step: the sum of the size in use, or the default where
/// none is set, and the step, moved between 1 and 255. Sizes are single-precision
/// patterns.
pub fn font_size_after_delta(current: Option<u32>, default: u32, delta: u32) -> (r: u32)
    ensures
        r == bounded_font_size(single_sum(size_in_use(current, default), delta)),
{
    let size: u32 = match current {
        Some(size) => size,
        None => default,
    };
    bound_font_size(add_singles(size, delta))
}

fn bound_font_size(bits: u32) -> (r: u32)
    ensures
        r == bounded_font_size(bits),
{
    if bits % SINGLE_SIGN > SINGLE_INFINITY {
        bits
    } else if single_below(bits, MIN_FONT_SIZE) {
        MIN_FONT_SIZE
    } else if single_below(MAX_FONT_SIZE, bits) {
        MAX_FONT_SIZE
    } else {
        bits
    }
}

/// A font size that was stepped to is one that the settings keep.
pub proof fn lemma_stepped_font_size_is_valid(sum: u32)
    requires
        !single_is_nan(sum),
    ensures
        valid_font_size(bounded_font_size(sum)),
{
}

/// The settings with another font size, to be saved before it is taken on.
pub fn config_with_font_size(config: &AppConfig, font_size: Option<u32>) -> (r: AppConfig)
    ensures
        r == (AppConfig { font_size, ..*config }),
{
    AppConfig { font_size, ..*config }
}

/// What a change of the font size comes to once its settings were to be saved.
#[derive(Debug, PartialEq)]
pub enum FontSizeChange {
    /// The terminals take the size on.
    Broadcast(u32),
    /// The terminals go back to their own size.
    Reset,
    /// The user is told this, and the size stays.
    Failed(String),
}

/// The action that every terminal is given for a change of the font size, with the
/// size as it is written out: none for a change that failed, which is not handled.
pub open spec fn font_size_action(change: FontSizeChange, written: Seq<char>) -> Option<Seq<char>> {
    match change {
        FontSizeChange::Broadcast(_) => Some("set_font_size:"@ + written),
        FontSizeChange::Reset => Some("reset_font_size"@),
        FontSizeChange::Failed(_) => None,
    }
}

pub fn broadcast_font_size(change: &FontSizeChange, written: &str) -> (r: Option<String>)
    ensures
        optional_text(r) == font_size_action(*change, written@),
{
    match change {
        FontSizeChange::Broadcast(_) => Some(set_font_size_action(written)),
        FontSizeChange::Reset => Some("reset_font_size".to_owned()),
        FontSizeChange::Failed(_) => None,
    }
}

/// Takes a font size on, `None` for the terminals' own, if the settings with it
/// were saved.
pub fn persist_font_size(
    config: &mut AppConfig,
    font_size: Option<u32>,
    saved: &Result<(), String>,
) -> (r: FontSizeChange)
    ensures
        match saved {
            Ok(()) => {
                &&& *final(config) == (AppConfig { font_size, ..*old(config) })
                &&& match font_size {
                    Some(size) => r == FontSizeChange::Broadcast(size),
                    None => r == FontSizeChange::Reset,
                }
            },
            Err(cause) => {
                &&& *final(config) == *old(config)
                &&& r matches FontSizeChange::Failed(told)
                &&& told@ == "Failed to save Limux settings: "@ + cause@
            },
        },
        *saved is Err ==> final(config).font_size == old(config).font_size,
        *saved is Ok ==> final(config).font_size == font_size,
        final(config).appearance == old(config).appearance,
{
    match saved {
        Ok(()) => {
            config.font_size = font_size;
            match font_size {
                Some(size) => FontSizeChange::Broadcast(size),
                None => FontSizeChange::Reset,
            }
        },
        Err(cause) => FontSizeChange::Failed(save_error_detail(cause.as_str())),
    }
}

/// What the user is told when the settings cannot be saved.
pub fn save_error_detail(cause: &str) -> (r: String)
    ensures
        r@ == "Failed to save Limux settings: "@ + cause@,
{
    let mut detail = "Failed to save Limux settings: ".to_owned();
    detail.append(cause);
    detail
}

/// Whether a pane is in view: the window is in use, the pane's workspace is the
/// one that is shown, and the pane is among its widgets.
pub fn is_pane_visible(
    window_active: bool,
    workspaces: &Workspaces,
    workspace_id: &str,
    in_workspace: bool,
) -> (r: bool)
    ensures
        r == (window_active && in_workspace && (workspaces.active() matches Some(w) && w.id
            == workspace_id@)),
{
    let active = match workspaces.active_workspace() {
        Some(workspace) => same(workspace.id.as_str(), workspace_id),
        None => false,
    };
    window_active && in_workspace && active
}

/// A font size between the smallest and the largest is kept, one beyond them goes to
/// the nearer of the two, and of two sizes the larger gives no smaller one.
pub proof fn lemma_font_sizes_are_bounded(a: u32, b: u32)
    requires
        !single_is_nan(a),
        !single_is_nan(b),
    ensures
        MIN_FONT_SIZE <= bounded_font_size(a) <= MAX_FONT_SIZE,
        MIN_FONT_SIZE <= a <= MAX_FONT_SIZE ==> bounded_font_size(a) == a,
        single_rank(a) < single_rank(MIN_FONT_SIZE) ==> bounded_font_size(a) == MIN_FONT_SIZE,
        single_rank(a) > single_rank(MAX_FONT_SIZE) ==> bounded_font_size(a) == MAX_FONT_SIZE,
        single_rank(a) <= single_rank(b) ==> bounded_font_size(a) <= bounded_font_size(b),
{
}

/// A step starts from the size in use, and from the default only where none is; a
/// size that is set or reset is asked of the terminal in its own words, and a change
/// that failed is not.
pub proof fn lemma_font_size_is_asked_for(
    current: Option<u32>,
    default: u32,
    change: FontSizeChange,
    written: Seq<char>,
)
    ensures
        current matches Some(size) ==> size_in_use(current, default) == size,
        current is None ==> size_in_use(current, default) == default,
        font_size_action(change, written) is None <==> change is Failed,
        change is Broadcast ==> (font_size_action(change, written) matches Some(action)
            && "set_font_size:"@.is_prefix_of(action) && written.is_suffix_of(action)
            && action.len() == "set_font_size:"@.len() + written.len()),
        change is Reset ==> (font_size_action(change, written) matches Some(action)
            && !"set_font_size:"@.is_prefix_of(action)),
{
    reveal_strlit("set_font_size:");
    reveal_strlit("reset_font_size");
    let action = "set_font_size:"@ + written;
    assert("set_font_size:"@ =~= action.subrange(0, "set_font_size:"@.len() as int));
    assert(written =~= action.subrange(action.len() - written.len(), action.len() as int));
    assert("set_font_size:"@[0] == 's');
    assert("reset_font_size"@[0] == 'r');
    if "set_font_size:"@.is_prefix_of("reset_font_size"@) {
        assert("reset_font_size"@.subrange(0, 14)[0] == "set_font_size:"@[0]);
    }
}

/// A step up never makes a font size smaller, and a step down never larger. Where
/// the size that is larger or smaller by the step exists, within the limits, the step
/// leads exactly there. The two steps are as large as each other, and go up and down.
pub proof fn lemma_font_size_steps(size: u32, next: u32)
    requires
        valid_font_size(size),
        valid_font_size(next),
    ensures
        ({
            let up = bounded_font_size(single_sum(size, FONT_SIZE_STEP_UP));
            let down = bounded_font_size(single_sum(size, FONT_SIZE_STEP_DOWN));
            &&& up >= size
            &&& down <= size
            &&& single_measure(next) == single_measure(size) + pow2(149) ==> up == next
            &&& single_measure(next) == single_measure(size) - pow2(149) ==> down == next
            &&& single_measure(FONT_SIZE_STEP_UP) == pow2(149)
            &&& single_measure(FONT_SIZE_STEP_DOWN) == -pow2(149)
        }),
{
    lemma2_to64();
    lemma_pow2_adds(23, 126);
    lemma_pow2_pos(149);
    assert(units(23, 0x3F80_0000) == pow2(149)) by {
        assert(0x3F80_0000nat / 0x80_0000 == 127 && 0x3F80_0000nat % 0x80_0000 == 0);
    }
    lemma_single_sum_is_rounded(size, FONT_SIZE_STEP_UP, size);
    lemma_single_sum_is_rounded(size, FONT_SIZE_STEP_DOWN, size);
    lemma_single_sum_is_rounded(size, FONT_SIZE_STEP_UP, next);
    lemma_single_sum_is_rounded(size, FONT_SIZE_STEP_DOWN, next);
}

} // verus!
