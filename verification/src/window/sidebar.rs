//! The sidebar and the top bar: whether and how wide they are shown.
use vstd::prelude::*;

use crate::float_bits::{
    double_below, double_is_nan, double_of_unsigned, double_rank, natural_as_double,
    DOUBLE_INFINITY, DOUBLE_SIGN,
};
use crate::float_laws::{
    encodes, lemma_integer_encoded, lemma_integer_is_nearest, lemma_sum_is_rounded, one,
};
use crate::float_ops::{add_doubles, double_sum, nearest_i32, round_to_i32};
use crate::window::session::SidebarState;

verus! {

/// Usual width of the sidebar, in pixels.
pub const SIDEBAR_WIDTH: i32 = 220;

/// Width of the handle that resizes the sidebar, in pixels.
pub const SIDEBAR_RESIZE_HANDLE_WIDTH_PX: i32 = 3;

/// A sidebar of at most this width counts as closed.
pub const SIDEBAR_COLLAPSED_WIDTH: i32 = 10;

/// Milliseconds that opening and closing takes.
pub const SIDEBAR_ANIMATION_MS: u32 = 200;

/// What the window keeps of its sidebar.
#[derive(Clone, Copy, Debug, PartialEq, Eq, Structural)]
pub struct Sidebar {
    /// Width that it has, or had, when it is open.
    pub expanded_width: i32,
    /// Number of the last opening or closing.
    pub animation_epoch: u64,
    /// It is being opened or closed.
    pub animating: bool,
}

/// What toggling the sidebar does.
#[derive(Clone, Copy, Debug, PartialEq, Eq, Structural)]
pub struct SidebarToggle {
    /// An opening or closing that is under way stops.
    pub pause_previous: bool,
    /// The sidebar closes; else it is shown first and opens.
    pub collapse: bool,
    /// The width goes from here
    pub from: i32,
    /// to here.
    pub to: i32,
    /// Number of this opening or closing.
    pub epoch: u64,
}

/// What the end of an opening or closing does.
#[derive(Clone, Copy, Debug, PartialEq, Eq, Structural)]
pub enum AnimationEnd {
    /// It was overtaken by another: nothing.
    Stale,
    /// The sidebar is closed: hide it and save the session.
    Hide,
    /// The sidebar is open: save the session.
    Save,
}

pub open spec fn at_least(width: i32, least: i32) -> i32 {
    if width > least {
        width
    } else {
        least
    }
}

impl Sidebar {
    pub fn new() -> (r: Self)
        ensures
            r == (Sidebar {
                expanded_width: SIDEBAR_WIDTH,
                animation_epoch: 0,
                animating: false,
            }),
    {
        Sidebar { expanded_width: SIDEBAR_WIDTH, animation_epoch: 0, animating: false }
    }

    pub open spec fn next_epoch(self) -> u64 {
        if self.animation_epoch == u64::MAX {
            0
        } else {
            (self.animation_epoch + 1) as u64
        }
    }

    /// The sidebar after a toggle, given the width that it is asked to have.
    pub open spec fn toggled(self, requested_width: i32) -> Sidebar {
        let current = at_least(requested_width, 0);
        Sidebar {
            expanded_width: if current > SIDEBAR_COLLAPSED_WIDTH {
                current
            } else {
                self.expanded_width
            },
            animation_epoch: self.next_epoch(),
            animating: true,
        }
    }

    /// What a toggle does, given the width that the sidebar is asked to have.
    pub open spec fn toggle(self, requested_width: i32) -> SidebarToggle {
        let current = at_least(requested_width, 0);
        let collapse = current > SIDEBAR_COLLAPSED_WIDTH;
        SidebarToggle {
            pause_previous: self.animating,
            collapse,
            from: if collapse {
                current
            } else {
                0
            },
            to: if collapse {
                0
            } else {
                at_least(self.expanded_width, SIDEBAR_WIDTH)
            },
            epoch: self.next_epoch(),
        }
    }

    /// Opens or closes the sidebar, given the width that it is asked to have now.
    pub fn toggle_sidebar(&mut self, requested_width: i32) -> (r: SidebarToggle)
        ensures
            *final(self) == old(self).toggled(requested_width),
            r == old(self).toggle(requested_width),
    {
        let current: i32 = if requested_width > 0 {
            requested_width
        } else {
            0
        };
        let collapse = current > SIDEBAR_COLLAPSED_WIDTH;
        if collapse {
            self.expanded_width = current;
        }
        let target: i32 = if self.expanded_width > SIDEBAR_WIDTH {
            self.expanded_width
        } else {
            SIDEBAR_WIDTH
        };
        let pause_previous = self.animating;
        self.animation_epoch = self.animation_epoch.wrapping_add(1);
        self.animating = true;
        SidebarToggle {
            pause_previous,
            collapse,
            from: if collapse {
                current
            } else {
                0
            },
            to: if collapse {
                0
            } else {
                target
            },
            epoch: self.animation_epoch,
        }
    }

    /// The end of an opening or closing. One that was overtaken does nothing.
    pub fn animation_done(&mut self, epoch: u64, collapse: bool) -> (r: AnimationEnd)
        ensures
            r == (if epoch != old(self).animation_epoch {
                AnimationEnd::Stale
            } else if collapse {
                AnimationEnd::Hide
            } else {
                AnimationEnd::Save
            }),
            *final(self) == (if epoch == old(self).animation_epoch {
                Sidebar { animating: false, ..*old(self) }
            } else {
                *old(self)
            }),
    {
        if epoch != self.animation_epoch {
            return AnimationEnd::Stale;
        }
        self.animating = false;
        if collapse {
            AnimationEnd::Hide
        } else {
            AnimationEnd::Save
        }
    }

    /// Takes on the sidebar of a restored session, at once. Returns its width.
    pub fn apply_sidebar_state_immediately(&mut self, state: SidebarState) -> (r: i32)
        ensures
            *final(self) == (Sidebar {
                expanded_width: at_least(state.width, SIDEBAR_WIDTH),
                ..*old(self)
            }),
            r == (if state.visible {
                final(self).expanded_width
            } else {
                0
            }),
    {
        self.expanded_width = if state.width > SIDEBAR_WIDTH {
            state.width
        } else {
            SIDEBAR_WIDTH
        };
        if state.visible {
            self.expanded_width
        } else {
            0
        }
    }

    /// A drag of the sidebar's edge by an offset from the width that it started
    /// with; the offset is a double-precision pattern. Returns the width that the
    /// sidebar gets: no less than its contents need.
    pub fn resize(&mut self, origin: i32, offset: u64, contents_minimum: i32) -> (r: i32)
        ensures
            r == at_least(
                nearest_i32(double_sum(integer_as_double(origin), offset)),
                at_least(contents_minimum, 1),
            ),
            *final(self) == (Sidebar { expanded_width: r, ..*old(self) }),
    {
        let width: i32 = round_to_i32(add_doubles(double_of_integer(origin), offset));
        let minimum: i32 = sidebar_min_width(contents_minimum);
        let width: i32 = if width > minimum {
            width
        } else {
            minimum
        };
        self.expanded_width = width;
        width
    }

    /// The end of a drag of the sidebar's edge, at the width that it is asked to
    /// have now.
    pub fn resize_done(&mut self, requested_width: i32)
        ensures
            *final(self) == (Sidebar {
                expanded_width: at_least(requested_width, 0),
                ..*old(self)
            }),
    {
        self.expanded_width = sidebar_width(requested_width);
    }
}

/// The width of the sidebar, given the width that it is asked to have.
pub fn sidebar_width(requested_width: i32) -> (r: i32)
    ensures
        r == at_least(requested_width, 0),
{
    if requested_width > 0 {
        requested_width
    } else {
        0
    }
}

/// The width that the sidebar has at least, given what its contents need.
pub fn sidebar_min_width(contents_minimum: i32) -> (r: i32)
    ensures
        r == at_least(contents_minimum, 1),
{
    if contents_minimum > 1 {
        contents_minimum
    } else {
        1
    }
}

/// Whether the sidebar is open.
pub fn sidebar_is_visible(shown: bool, requested_width: i32) -> (r: bool)
    ensures
        r == (shown && at_least(requested_width, 0) > SIDEBAR_COLLAPSED_WIDTH),
{
    shown && sidebar_width(requested_width) > SIDEBAR_COLLAPSED_WIDTH
}

/// A sidebar that was closed opens again to the width that it had, or to the usual
/// one if that is more.
pub proof fn lemma_reopened_sidebar_keeps_width(sidebar: Sidebar, width: i32)
    requires
        width > SIDEBAR_COLLAPSED_WIDTH,
    ensures
        sidebar.toggle(width).collapse,
        !sidebar.toggled(width).toggle(0).collapse,
        sidebar.toggled(width).toggle(0).to == at_least(width, SIDEBAR_WIDTH),
{
}

/// An opening or closing that was overtaken has another number than the one that
/// overtook it, so that its end does nothing.
pub proof fn lemma_overtaken_animation_is_stale(sidebar: Sidebar, first: i32, second: i32)
    ensures
        sidebar.toggle(first).epoch != sidebar.toggled(first).toggled(second).animation_epoch,
{
}

/// The pattern of a double-precision number that equals an integer.
pub open spec fn integer_as_double(n: i32) -> u64 {
    if n >= 0 {
        natural_as_double(n as nat) as u64
    } else {
        (DOUBLE_SIGN + natural_as_double((-n) as nat)) as u64
    }
}

pub fn double_of_integer(n: i32) -> (r: u64)
    ensures
        r == integer_as_double(n),
        !double_is_nan(r),
{
    if n >= 0 {
        double_of_unsigned(n as u64)
    } else {
        DOUBLE_SIGN + double_of_unsigned((-(n as i64)) as u64)
    }
}

/// Whether a double-precision number lies between two integers, bounds included.
pub open spec fn lies_between(x: u64, low: i32, high: i32) -> bool {
    !double_is_nan(x) && double_rank(integer_as_double(low)) <= double_rank(x) <= double_rank(
        integer_as_double(high),
    )
}

pub fn between(x: u64, low: i32, high: i32) -> (r: bool)
    ensures
        r == lies_between(x, low, high),
{
    if x % DOUBLE_SIGN > DOUBLE_INFINITY {
        return false;
    }
    !double_below(x, double_of_integer(low)) && !double_below(double_of_integer(high), x)
}

/// Whether a position is off the handle that begins at `start`: before or behind
/// it. The position is a double-precision pattern.
pub open spec fn off_handle(x: u64, start: int) -> bool {
    !double_is_nan(x) && (double_rank(x) < natural_as_double(start as nat) || double_rank(x)
        > natural_as_double((start + SIDEBAR_RESIZE_HANDLE_WIDTH_PX) as nat))
}

/// The start of a drag at a horizontal position: the width that it starts from, or
/// none where it is not on the handle. The position is a double-precision pattern.
pub fn resize_begin(x: u64, requested_width: i32, contents_minimum: i32) -> (r: Option<i32>)
    ensures
        ({
            let current = at_least(requested_width, 0);
            r == (if off_handle(x, current as int) {
                None
            } else {
                Some(at_least(current, at_least(contents_minimum, 1)))
            })
        }),
        r matches Some(width) ==> width >= 1 && width >= contents_minimum && width
            >= requested_width,
{
    let current: i32 = sidebar_width(requested_width);
    if x % DOUBLE_SIGN <= DOUBLE_INFINITY {
        let start: u64 = double_of_unsigned(current as u64);
        let end: u64 = double_of_unsigned(
            current as u64 + SIDEBAR_RESIZE_HANDLE_WIDTH_PX as u64,
        );
        if double_below(x, start) || double_below(end, x) {
            return None;
        }
    }
    let minimum: i32 = sidebar_min_width(contents_minimum);
    if current > minimum {
        Some(current)
    } else {
        Some(minimum)
    }
}

/// A drag of the sidebar's edge.
#[derive(Clone, Copy, Debug, PartialEq, Eq, Structural)]
pub struct SidebarResize {
    /// The edge is being dragged.
    pub resizing: bool,
    /// The width that the drag started from.
    pub origin: i32,
}

impl SidebarResize {
    pub fn new() -> (r: Self)
        ensures
            r == (SidebarResize { resizing: false, origin: SIDEBAR_WIDTH }),
    {
        SidebarResize { resizing: false, origin: SIDEBAR_WIDTH }
    }

    /// A drag begins at a horizontal position. Says whether it is one of the edge.
    pub fn begin(&mut self, x: u64, requested_width: i32, contents_minimum: i32) -> (r: bool)
        ensures
            ({
                let current = at_least(requested_width, 0);
                &&& r == !off_handle(x, current as int)
                &&& *final(self) == (if r {
                    SidebarResize {
                        resizing: true,
                        origin: at_least(current, at_least(contents_minimum, 1)),
                    }
                } else {
                    *old(self)
                })
            }),
    {
        match resize_begin(x, requested_width, contents_minimum) {
            Some(origin) => {
                self.resizing = true;
                self.origin = origin;
                true
            },
            None => false,
        }
    }

    /// The pointer moved by an offset from where the drag began. Gives the width
    /// that the sidebar gets; none, and nothing changes, unless its edge is dragged.
    pub fn update(&self, sidebar: &mut Sidebar, offset: u64, contents_minimum: i32) -> (r: Option<
        i32,
    >)
        ensures
            ({
                let width = at_least(
                    nearest_i32(double_sum(integer_as_double(self.origin), offset)),
                    at_least(contents_minimum, 1),
                );
                if self.resizing {
                    r == Some(width) && *final(sidebar) == (Sidebar {
                        expanded_width: width,
                        ..*old(sidebar)
                    })
                } else {
                    r is None && *final(sidebar) == *old(sidebar)
                }
            }),
    {
        if self.resizing {
            Some(sidebar.resize(self.origin, offset, contents_minimum))
        } else {
            None
        }
    }

    /// The drag ends with the sidebar at this width. The session is saved then.
    pub fn end(&mut self, sidebar: &mut Sidebar, requested_width: i32)
        ensures
            *final(self) == (SidebarResize { resizing: false, ..*old(self) }),
            *final(sidebar) == (Sidebar {
                expanded_width: at_least(requested_width, 0),
                ..*old(sidebar)
            }),
    {
        self.resizing = false;
        sidebar.resize_done(requested_width);
    }
}

/// Whether the top bar is shown: if the user wants it, and never in full screen.
pub fn top_bar_shown(preferred_visible: bool, fullscreened: bool) -> (r: bool)
    ensures
        r == (preferred_visible && !fullscreened),
{
    preferred_visible && !fullscreened
}

/// What the host does when the user turns the top bar on or off.
#[derive(Clone, Copy, Debug, PartialEq, Eq, Structural)]
pub struct TopBarToggled {
    /// Whether the top bar is shown now.
    pub shown: bool,
    pub save_session: bool,
}

/// The user turns the top bar on or off. In full screen that shows later; the
/// session is saved in any case.
pub fn toggle_top_bar(preferred_visible: &mut bool, fullscreened: bool) -> (r: TopBarToggled)
    ensures
        *final(preferred_visible) == !*old(preferred_visible),
        r == (TopBarToggled {
            shown: !*old(preferred_visible) && !fullscreened,
            save_session: true,
        }),
{
    *preferred_visible = !*preferred_visible;
    TopBarToggled { shown: top_bar_shown(*preferred_visible, fullscreened), save_session: true }
}

/// A toggle closes a sidebar that is open, from the width it has down to nothing,
/// and opens one that is closed, from nothing to a width at which it counts as open:
/// the usual one at least, and no less than it last had.
pub proof fn lemma_toggle_turns_around(sidebar: Sidebar, width: i32)
    ensures
        ({
            let toggle = sidebar.toggle(width);
            let after = sidebar.toggled(width);
            &&& toggle.collapse <==> width > SIDEBAR_COLLAPSED_WIDTH
            &&& toggle.collapse ==> toggle.from == width && toggle.to == 0
            &&& toggle.collapse ==> after.expanded_width == width
            &&& !toggle.collapse ==> {
                &&& toggle.from == 0
                &&& toggle.to >= SIDEBAR_WIDTH
                &&& toggle.to >= sidebar.expanded_width
                &&& toggle.to == SIDEBAR_WIDTH || toggle.to == sidebar.expanded_width
                &&& after.expanded_width == sidebar.expanded_width
            }
            &&& after.toggle(toggle.to).collapse == !toggle.collapse
            &&& toggle.pause_previous == sidebar.animating
            &&& after.animating
            &&& after.animation_epoch == toggle.epoch
            &&& toggle.epoch != sidebar.animation_epoch
        }),
{
}

/// A drag of the sidebar's edge by whole pixels makes it as many pixels wider or
/// narrower, but never narrower than its contents need, nor than one pixel.
pub proof fn lemma_drag_in_pixels(origin: i32, offset: u64, n: int, minimum: i32)
    requires
        encodes(offset, n),
        i32::MIN < origin,
        i32::MIN < origin + n <= i32::MAX,
    ensures
        ({
            let width = at_least(
                nearest_i32(double_sum(integer_as_double(origin), offset)),
                at_least(minimum, 1),
            );
            &&& width >= 1 && width >= minimum && width >= origin + n
            &&& width == 1 || width == minimum || width == origin + n
        }),
{
    let sum = (origin + n) as i32;
    lemma_integer_encoded(origin);
    lemma_integer_encoded(sum);
    assert(origin * one() + n * one() == (origin + n) * one()) by (nonlinear_arith);
    lemma_sum_is_rounded(integer_as_double(origin), offset, integer_as_double(sum));
    lemma_integer_is_nearest(double_sum(integer_as_double(origin), offset), origin + n);
}

} // verus!
