//! Moving the focus between panes.
//!
//! Widgets are known by number.
use vstd::prelude::*;
use vstd::string::*;

use crate::float_bits::{
    double_below, double_finite, double_is_nan, double_rank, DOUBLE_INFINITY, DOUBLE_SIGN,
};
use crate::float_laws::{
    double_units, encodes, lemma_difference_is_rounded, lemma_difference_of_halves,
    lemma_integer_arithmetic, lemma_integer_encoded, lemma_integer_halved,
    lemma_integer_is_nearest, lemma_integers_ordered, lemma_nearest_of_half, lemma_negated,
    lemma_rank_orders_numbers, lemma_sum_commutes, one,
};
use crate::float_ops::{
    add_doubles, double_difference, double_halved, double_negated, double_sum, halve_double,
    nearest_i32, round_to_i32, subtract_doubles,
};
use crate::split_tree::Orientation;
use crate::window::sidebar::{double_of_integer, integer_as_double};
use crate::window::workspaces::Workspaces;

verus! {

/// A direction in which the focus moves.
#[derive(Clone, Copy, Debug, PartialEq, Eq, Structural)]
pub enum Direction {
    Left,
    Right,
    Up,
    Down,
}

/// The split that a direction crosses, and on which side of it the focus has to
/// be.
pub open spec fn crossing(direction: Direction) -> (Orientation, bool) {
    match direction {
        Direction::Left => (Orientation::Horizontal, false),
        Direction::Right => (Orientation::Horizontal, true),
        Direction::Up => (Orientation::Vertical, false),
        Direction::Down => (Orientation::Vertical, true),
    }
}

/// The split that a direction crosses: its orientation, and whether the focus has
/// to be in the first child.
pub fn crossed_split(direction: Direction) -> (r: (Orientation, bool))
    ensures
        r == crossing(direction),
{
    match direction {
        Direction::Left => (Orientation::Horizontal, false),
        Direction::Right => (Orientation::Horizontal, true),
        Direction::Up => (Orientation::Vertical, false),
        Direction::Down => (Orientation::Vertical, true),
    }
}

/// A widget above the focused pane.
#[derive(Clone, Copy, Debug, PartialEq, Eq, Structural)]
pub enum Ancestor {
    /// A split, and whether the pane is in its first child.
    Split { orientation: Orientation, in_first: bool },
    Other,
}

impl Ancestor {
    /// Whether the focus can cross this split in a direction.
    pub open spec fn crossable(self, direction: Direction) -> bool {
        match self {
            Ancestor::Split { orientation, in_first } => (orientation, in_first) == crossing(
                direction,
            ),
            Ancestor::Other => false,
        }
    }
}

/// The split to cross: the nearest that can be crossed in the direction, among the
/// widgets above the focused pane from the nearest on.
pub fn split_to_cross(ancestors: &Vec<Ancestor>, direction: Direction) -> (r: Option<usize>)
    ensures
        match r {
            Some(i) => {
                &&& i < ancestors@.len()
                &&& ancestors@[i as int].crossable(direction)
                &&& forall|j: int| 0 <= j < i ==> !(#[trigger] ancestors@[j]).crossable(direction)
            },
            None => forall|j: int|
                0 <= j < ancestors@.len() ==> !(#[trigger] ancestors@[j]).crossable(direction),
        },
{
    let (wanted, first) = crossed_split(direction);
    let mut i: usize = 0;
    while i < ancestors.len()
        invariant
            (wanted, first) == crossing(direction),
            i <= ancestors@.len(),
            forall|j: int| 0 <= j < i ==> !(#[trigger] ancestors@[j]).crossable(direction),
        decreases ancestors@.len() - i,
    {
        if let Ancestor::Split { orientation, in_first } = ancestors[i] {
            if orientation == wanted && in_first == first {
                return Some(i);
            }
        }
        i += 1;
    }
    None
}

/// How good a neighbor a pane is.
#[derive(Clone, Copy, Debug, PartialEq, Eq, Structural)]
pub struct NeighborScore {
    pub has_overlap: bool,
    pub overlap: i32,
    pub gap: i32,
    pub center_delta: i32,
}

/// Whether a pane is a better neighbor than another: one beside the focused pane
/// rather than not, then one with more of its side along it, then a nearer one,
/// then one whose middle is nearer.
pub open spec fn better(a: NeighborScore, b: NeighborScore) -> bool {
    if a.has_overlap != b.has_overlap {
        a.has_overlap
    } else if a.overlap != b.overlap {
        a.overlap > b.overlap
    } else if a.gap != b.gap {
        a.gap < b.gap
    } else {
        a.center_delta < b.center_delta
    }
}

pub fn neighbor_score_better(candidate: NeighborScore, best: NeighborScore) -> (r: bool)
    ensures
        r == better(candidate, best),
{
    if candidate.has_overlap != best.has_overlap {
        candidate.has_overlap
    } else if candidate.overlap != best.overlap {
        candidate.overlap > best.overlap
    } else if candidate.gap != best.gap {
        candidate.gap < best.gap
    } else {
        candidate.center_delta < best.center_delta
    }
}

/// Being better is a strict order.
pub proof fn lemma_better_is_an_order(a: NeighborScore, b: NeighborScore, c: NeighborScore)
    ensures
        !better(a, a),
        better(a, b) ==> !better(b, a),
        better(a, b) && better(b, c) ==> better(a, c),
        !better(a, b) && !better(b, a) ==> a == b,
{
}

/// The bounds of a pane in the window, as double-precision patterns.
#[derive(Clone, Copy, Debug, PartialEq, Eq, Structural)]
pub struct PaneBounds {
    pub left: u64,
    pub top: u64,
    pub right: u64,
    pub bottom: u64,
}

/// The bounds of a widget of some size, at a place in the window if that can be
/// told; none for a widget without a size.
pub fn widget_bounds_in_root(width: i32, height: i32, place: Option<(u64, u64)>) -> (r: Option<
    PaneBounds,
>)
    ensures
        r == (match place {
            Some((left, top)) if width > 0 && height > 0 => Some(
                PaneBounds {
                    left,
                    top,
                    right: double_sum(left, integer_as_double(width)),
                    bottom: double_sum(top, integer_as_double(height)),
                },
            ),
            _ => None,
        }),
{
    if width <= 0 || height <= 0 {
        return None;
    }
    match place {
        Some((left, top)) => Some(
            PaneBounds {
                left,
                top,
                right: add_doubles(left, double_of_integer(width)),
                bottom: add_doubles(top, double_of_integer(height)),
            },
        ),
        None => None,
    }
}

/// The smaller of two numbers; the other one where one is no number.
pub open spec fn smaller(a: u64, b: u64) -> u64 {
    if double_is_nan(a) {
        b
    } else if double_is_nan(b) || double_rank(a) <= double_rank(b) {
        a
    } else {
        b
    }
}

/// The larger of two numbers; the other one where one is no number.
pub open spec fn larger(a: u64, b: u64) -> u64 {
    if double_is_nan(a) {
        b
    } else if double_is_nan(b) || double_rank(a) >= double_rank(b) {
        a
    } else {
        b
    }
}

fn smaller_double(a: u64, b: u64) -> (r: u64)
    ensures
        r == smaller(a, b),
{
    if a % DOUBLE_SIGN > DOUBLE_INFINITY {
        b
    } else if b % DOUBLE_SIGN > DOUBLE_INFINITY {
        a
    } else if double_below(b, a) {
        b
    } else {
        a
    }
}

fn larger_double(a: u64, b: u64) -> (r: u64)
    ensures
        r == larger(a, b),
{
    if a % DOUBLE_SIGN > DOUBLE_INFINITY {
        b
    } else if b % DOUBLE_SIGN > DOUBLE_INFINITY {
        a
    } else if double_below(a, b) {
        b
    } else {
        a
    }
}

/// A number in whole pixels, 0 for a negative one.
pub open spec fn pixels(x: u64) -> i32 {
    nearest_i32(larger(x, 0))
}

/// How much of two stretches they share, in whole pixels.
pub open spec fn shared(a_start: u64, a_end: u64, b_start: u64, b_end: u64) -> i32 {
    pixels(double_difference(smaller(a_end, b_end), larger(a_start, b_start)))
}

pub fn overlap_1d(a_start: u64, a_end: u64, b_start: u64, b_end: u64) -> (r: i32)
    ensures
        r == shared(a_start, a_end, b_start, b_end),
{
    let stretch: u64 = subtract_doubles(
        smaller_double(a_end, b_end),
        larger_double(a_start, b_start),
    );
    round_to_i32(larger_double(stretch, 0))
}

/// The middle of a stretch.
pub open spec fn middle(start: u64, end: u64) -> u64 {
    double_halved(double_sum(start, end))
}

/// Minus one half in double precision.
pub const MINUS_HALF: u64 = 0xBFE0_0000_0000_0000;

/// The distance from a pane to another in a direction.
pub open spec fn gap_between(current: PaneBounds, candidate: PaneBounds, direction: Direction) -> u64 {
    match direction {
        Direction::Left => double_difference(current.left, candidate.right),
        Direction::Right => double_difference(candidate.left, current.right),
        Direction::Up => double_difference(current.top, candidate.bottom),
        Direction::Down => double_difference(candidate.top, current.bottom),
    }
}

/// How good a neighbor a pane is in a direction; none for one that lies more than
/// half a pixel on the wrong side.
pub open spec fn score(current: PaneBounds, candidate: PaneBounds, direction: Direction) -> Option<
    NeighborScore,
> {
    let sideways = direction == Direction::Left || direction == Direction::Right;
    let (a, b, c, d) = if sideways {
        (current.top, current.bottom, candidate.top, candidate.bottom)
    } else {
        (current.left, current.right, candidate.left, candidate.right)
    };
    let gap = gap_between(current, candidate, direction);
    let overlap = shared(a, b, c, d);
    if !double_is_nan(gap) && double_rank(gap) < double_rank(MINUS_HALF) {
        None
    } else {
        Some(
            NeighborScore {
                has_overlap: overlap > 0,
                overlap,
                gap: pixels(gap),
                center_delta: nearest_i32(
                    double_difference(middle(c, d), middle(a, b)) % DOUBLE_SIGN,
                ),
            },
        )
    }
}

pub fn directional_neighbor_score(
    current: PaneBounds,
    candidate: PaneBounds,
    direction: Direction,
) -> (r: Option<NeighborScore>)
    ensures
        r == score(current, candidate, direction),
        forall|here: PixelBounds, there: PixelBounds| #[trigger]
            here.of(current) && #[trigger] there.of(candidate) ==> scored_towards(
                r,
                here,
                there,
                direction,
            ),
{
    proof {
        assert forall|here: PixelBounds, there: PixelBounds| #[trigger]
            here.of(current) && #[trigger] there.of(candidate) implies scored_towards(
            score(current, candidate, direction),
            here,
            there,
            direction,
        ) by {
            lemma_score_in_pixels(current, candidate, here, there);
        }
    }
    let gap: u64 = match direction {
        Direction::Left => subtract_doubles(current.left, candidate.right),
        Direction::Right => subtract_doubles(candidate.left, current.right),
        Direction::Up => subtract_doubles(current.top, candidate.bottom),
        Direction::Down => subtract_doubles(candidate.top, current.bottom),
    };
    if gap % DOUBLE_SIGN <= DOUBLE_INFINITY && double_below(gap, MINUS_HALF) {
        return None;
    }
    let (a, b, c, d): (u64, u64, u64, u64) = match direction {
        Direction::Left | Direction::Right => (
            current.top,
            current.bottom,
            candidate.top,
            candidate.bottom,
        ),
        Direction::Up | Direction::Down => (
            current.left,
            current.right,
            candidate.left,
            candidate.right,
        ),
    };
    let overlap: i32 = overlap_1d(a, b, c, d);
    let current_middle: u64 = halve_double(add_doubles(a, b));
    let candidate_middle: u64 = halve_double(add_doubles(c, d));
    let distance: u64 = subtract_doubles(candidate_middle, current_middle) % DOUBLE_SIGN;
    Some(
        NeighborScore {
            has_overlap: overlap > 0,
            overlap,
            gap: round_to_i32(larger_double(gap, 0)),
            center_delta: round_to_i32(distance),
        },
    )
}

/// The bounds of a pane in whole pixels.
pub ghost struct PixelBounds {
    pub left: int,
    pub top: int,
    pub right: int,
    pub bottom: int,
}

impl PixelBounds {
    /// Whether these are the bounds that the patterns encode, on a screen of any
    /// size that there is.
    pub open spec fn of(self, bounds: PaneBounds) -> bool {
        &&& encodes(bounds.left, self.left) && -0x1000_0000 < self.left < 0x1000_0000
        &&& encodes(bounds.top, self.top) && -0x1000_0000 < self.top < 0x1000_0000
        &&& encodes(bounds.right, self.right) && -0x1000_0000 < self.right < 0x1000_0000
        &&& encodes(bounds.bottom, self.bottom) && -0x1000_0000 < self.bottom < 0x1000_0000
    }
}

/// Whether a score is that of a pane some pixels away, that shares the stretch from
/// `start` to `end` of its side, if there is one, and whose middle is off by half of
/// `twice_off`.
pub open spec fn scored(
    r: Option<NeighborScore>,
    away: int,
    start: int,
    end: int,
    twice_off: int,
) -> bool {
    &&& r is Some <==> away >= 0
    &&& r matches Some(score) ==> {
        &&& score.gap == away
        &&& score.overlap == (if end > start {
            end - start
        } else {
            0
        })
        &&& score.has_overlap == (end > start)
        &&& score.center_delta == (if twice_off < 0 {
            1 - twice_off
        } else {
            1 + twice_off
        }) / 2
    }
}

/// Whether a score is that of a pane in a direction from another: as far away as the
/// sides that face each other are apart.
pub open spec fn scored_towards(
    r: Option<NeighborScore>,
    here: PixelBounds,
    there: PixelBounds,
    direction: Direction,
) -> bool {
    let away = match direction {
        Direction::Left => here.left - there.right,
        Direction::Right => there.left - here.right,
        Direction::Up => here.top - there.bottom,
        Direction::Down => there.top - here.bottom,
    };
    if direction == Direction::Left || direction == Direction::Right {
        scored(
            r,
            away,
            later(here.top, there.top),
            earlier(here.bottom, there.bottom),
            (there.top + there.bottom) - (here.top + here.bottom),
        )
    } else {
        scored(
            r,
            away,
            later(here.left, there.left),
            earlier(here.right, there.right),
            (there.left + there.right) - (here.left + here.right),
        )
    }
}

/// The later of two positions.
pub open spec fn later(a: int, b: int) -> int {
    if a > b {
        a
    } else {
        b
    }
}

/// The earlier of two positions.
pub open spec fn earlier(a: int, b: int) -> int {
    if a < b {
        a
    } else {
        b
    }
}

/// On whole pixels, a pane is a neighbor in a direction exactly if it begins where
/// the focused one ends on that side or beyond. Its gap is the distance between the
/// two sides that face each other, its overlap the part of those sides that lies
/// along both, and its middle is compared along them.
pub proof fn lemma_score_in_pixels(
    current: PaneBounds,
    candidate: PaneBounds,
    here: PixelBounds,
    there: PixelBounds,
)
    requires
        here.of(current),
        there.of(candidate),
    ensures
        scored(
            score(current, candidate, Direction::Left),
            here.left - there.right,
            later(here.top, there.top),
            earlier(here.bottom, there.bottom),
            (there.top + there.bottom) - (here.top + here.bottom),
        ),
        scored(
            score(current, candidate, Direction::Right),
            there.left - here.right,
            later(here.top, there.top),
            earlier(here.bottom, there.bottom),
            (there.top + there.bottom) - (here.top + here.bottom),
        ),
        scored(
            score(current, candidate, Direction::Up),
            here.top - there.bottom,
            later(here.left, there.left),
            earlier(here.right, there.right),
            (there.left + there.right) - (here.left + here.right),
        ),
        scored(
            score(current, candidate, Direction::Down),
            there.top - here.bottom,
            later(here.left, there.left),
            earlier(here.right, there.right),
            (there.left + there.right) - (here.left + here.right),
        ),
{
    lemma_gap_in_pixels(current.left, candidate.right, here.left, there.right);
    lemma_gap_in_pixels(candidate.left, current.right, there.left, here.right);
    lemma_gap_in_pixels(current.top, candidate.bottom, here.top, there.bottom);
    lemma_gap_in_pixels(candidate.top, current.bottom, there.top, here.bottom);
    lemma_shared_in_pixels(
        current.top,
        current.bottom,
        candidate.top,
        candidate.bottom,
        here.top,
        here.bottom,
        there.top,
        there.bottom,
    );
    lemma_shared_in_pixels(
        current.left,
        current.right,
        candidate.left,
        candidate.right,
        here.left,
        here.right,
        there.left,
        there.right,
    );
    lemma_off_in_pixels(
        current.top,
        current.bottom,
        candidate.top,
        candidate.bottom,
        here.top,
        here.bottom,
        there.top,
        there.bottom,
    );
    lemma_off_in_pixels(
        current.left,
        current.right,
        candidate.left,
        candidate.right,
        here.left,
        here.right,
        there.left,
        there.right,
    );
}

proof fn lemma_zero_encoded()
    ensures
        encodes(0, 0),
{
    lemma_integer_encoded(0);
}

proof fn lemma_pixels(x: u64, n: int)
    requires
        encodes(x, n),
        -0x7FFF_FFFF <= n <= 0x7FFF_FFFF,
    ensures
        pixels(x) == later(n, 0),
{
    lemma_zero_encoded();
    lemma_integers_ordered(0, x, 0, n);
    lemma_integers_ordered(x, 0, n, 0);
    lemma_integer_is_nearest(x, n);
    lemma_integer_is_nearest(0, 0);
}

proof fn lemma_gap_in_pixels(a: u64, b: u64, m: int, n: int)
    requires
        encodes(a, m),
        encodes(b, n),
        -0x1000_0000 < m < 0x1000_0000,
        -0x1000_0000 < n < 0x1000_0000,
    ensures
        !double_is_nan(double_difference(a, b)),
        double_rank(double_difference(a, b)) < double_rank(MINUS_HALF) <==> m < n,
        pixels(double_difference(a, b)) == later(m - n, 0),
{
    let d = double_difference(a, b);
    lemma_integer_arithmetic(a, b, m, n);
    lemma_pixels(d, m - n);
    lemma_zero_encoded();
    lemma_integers_ordered(0, d, 0, m - n);
    lemma_integer_encoded(-1i32 as i32);
    lemma_integers_ordered(d, integer_as_double(-1i32 as i32), m - n, -1);
    lemma_minus_one();
}

proof fn lemma_minus_one()
    ensures
        double_rank(integer_as_double(-1i32 as i32)) < double_rank(MINUS_HALF),
        double_rank(MINUS_HALF) < 0,
{
    reveal_with_fuel(crate::float_bits::high_bit, 2);
    vstd::arithmetic::power2::lemma2_to64();
    vstd::arithmetic::power2::lemma2_to64_rest();
    assert(crate::float_bits::natural_as_double(1) == 0x3FF0_0000_0000_0000);
}

proof fn lemma_shared_in_pixels(
    a: u64,
    b: u64,
    c: u64,
    d: u64,
    i: int,
    j: int,
    k: int,
    l: int,
)
    requires
        encodes(a, i),
        encodes(b, j),
        encodes(c, k),
        encodes(d, l),
        -0x1000_0000 < i < 0x1000_0000,
        -0x1000_0000 < j < 0x1000_0000,
        -0x1000_0000 < k < 0x1000_0000,
        -0x1000_0000 < l < 0x1000_0000,
    ensures
        shared(a, b, c, d) == later(earlier(j, l) - later(i, k), 0),
{
    lemma_integers_ordered(b, d, j, l);
    lemma_integers_ordered(c, a, k, i);
    let end = smaller(b, d);
    let start = larger(a, c);
    assert(encodes(end, earlier(j, l)));
    assert(encodes(start, later(i, k)));
    lemma_integer_arithmetic(end, start, earlier(j, l), later(i, k));
    lemma_pixels(double_difference(end, start), earlier(j, l) - later(i, k));
}

proof fn lemma_off_in_pixels(
    a: u64,
    b: u64,
    c: u64,
    d: u64,
    i: int,
    j: int,
    k: int,
    l: int,
)
    requires
        encodes(a, i),
        encodes(b, j),
        encodes(c, k),
        encodes(d, l),
        -0x1000_0000 < i < 0x1000_0000,
        -0x1000_0000 < j < 0x1000_0000,
        -0x1000_0000 < k < 0x1000_0000,
        -0x1000_0000 < l < 0x1000_0000,
    ensures
        nearest_i32(double_difference(middle(c, d), middle(a, b)) % DOUBLE_SIGN) == (if (k + l) - (i
            + j) < 0 {
            1 - ((k + l) - (i + j))
        } else {
            1 + ((k + l) - (i + j))
        }) / 2,
{
    lemma_integer_arithmetic(a, b, i, j);
    lemma_integer_arithmetic(c, d, k, l);
    lemma_integer_halved(double_sum(a, b), i + j);
    lemma_integer_halved(double_sum(c, d), k + l);
    lemma_difference_of_halves(middle(c, d), middle(a, b), k + l, i + j);
    lemma_nearest_of_half(double_difference(middle(c, d), middle(a, b)), (k + l) - (i + j));
}

/// One half, in units.
pub open spec fn half() -> int {
    -double_units(MINUS_HALF)
}

/// The number next to minus one half, on the far side of it.
pub const BEYOND_MINUS_HALF: u64 = 0xBFE0_0000_0000_0001;

/// How far one side lies beyond another, in units, and what that means for a score:
/// up to half a pixel on the wrong side there is one, and from the next number on
/// there is none. A pane that begins right where the other ends has a gap of 0.
pub open spec fn sides_decide(r: Option<NeighborScore>, beyond: int) -> bool {
    &&& beyond >= -half() ==> r is Some
    &&& beyond <= double_units(BEYOND_MINUS_HALF) ==> r is None
    &&& beyond == 0 ==> (r matches Some(score) && score.gap == 0)
}

/// Of panes with finite bounds, the two sides that face each other decide which is a
/// neighbor in a direction.
pub proof fn lemma_facing_sides_decide(current: PaneBounds, candidate: PaneBounds)
    requires
        double_finite(current.left) && double_finite(current.right),
        double_finite(current.top) && double_finite(current.bottom),
        double_finite(candidate.left) && double_finite(candidate.right),
        double_finite(candidate.top) && double_finite(candidate.bottom),
    ensures
        sides_decide(
            score(current, candidate, Direction::Left),
            double_units(current.left) - double_units(candidate.right),
        ),
        sides_decide(
            score(current, candidate, Direction::Right),
            double_units(candidate.left) - double_units(current.right),
        ),
        sides_decide(
            score(current, candidate, Direction::Up),
            double_units(current.top) - double_units(candidate.bottom),
        ),
        sides_decide(
            score(current, candidate, Direction::Down),
            double_units(candidate.top) - double_units(current.bottom),
        ),
{
    lemma_difference_decides(current.left, candidate.right);
    lemma_difference_decides(candidate.left, current.right);
    lemma_difference_decides(current.top, candidate.bottom);
    lemma_difference_decides(candidate.top, current.bottom);
}

proof fn lemma_difference_decides(a: u64, b: u64)
    requires
        double_finite(a),
        double_finite(b),
    ensures
        ({
            let beyond = double_units(a) - double_units(b);
            let gap = double_difference(a, b);
            &&& !double_is_nan(gap)
            &&& beyond >= -half() ==> double_rank(gap) >= double_rank(MINUS_HALF)
            &&& beyond <= double_units(BEYOND_MINUS_HALF) ==> double_rank(gap) < double_rank(
                MINUS_HALF,
            )
            &&& beyond == 0 ==> pixels(gap) == 0
        }),
{
    let gap = double_difference(a, b);
    assert(double_finite(MINUS_HALF) && double_finite(BEYOND_MINUS_HALF));
    lemma_difference_is_rounded(a, b, MINUS_HALF);
    lemma_difference_is_rounded(a, b, BEYOND_MINUS_HALF);
    lemma_zero_encoded();
    assert(0 * one() == 0) by (nonlinear_arith);
    lemma_difference_is_rounded(a, b, 0);
    if double_units(a) - double_units(b) == 0 {
        lemma_pixels(gap, 0);
    }
    lemma_rank_orders_numbers(MINUS_HALF, 0);
    lemma_rank_orders_numbers(0, MINUS_HALF);
}

/// The bounds in a mirror beside the window.
pub open spec fn mirrored(bounds: PaneBounds) -> PaneBounds {
    PaneBounds {
        left: double_negated(bounds.right),
        right: double_negated(bounds.left),
        ..bounds
    }
}

/// The bounds with the axes exchanged.
pub open spec fn transposed(bounds: PaneBounds) -> PaneBounds {
    PaneBounds {
        left: bounds.top,
        top: bounds.left,
        right: bounds.bottom,
        bottom: bounds.right,
    }
}

/// The four directions are one and the same up to mirrors: a mirror exchanges left
/// and right, exchanging the axes exchanges left and up as well as right and down.
pub proof fn lemma_directions_mirror(current: PaneBounds, candidate: PaneBounds)
    ensures
        score(current, candidate, Direction::Left) == score(
            mirrored(current),
            mirrored(candidate),
            Direction::Right,
        ),
        score(current, candidate, Direction::Right) == score(
            mirrored(current),
            mirrored(candidate),
            Direction::Left,
        ),
        score(current, candidate, Direction::Up) == score(
            transposed(current),
            transposed(candidate),
            Direction::Left,
        ),
        score(current, candidate, Direction::Down) == score(
            transposed(current),
            transposed(candidate),
            Direction::Right,
        ),
{
    lemma_negated(current.left);
    lemma_negated(current.right);
    lemma_negated(candidate.left);
    lemma_negated(candidate.right);
    lemma_sum_commutes(current.left, double_negated(candidate.right));
    lemma_sum_commutes(candidate.left, double_negated(current.right));
}

/// A pane is a neighbor of another in a direction exactly if the other is its
/// neighbor in the opposite one, and as far away.
pub proof fn lemma_neighbors_are_mutual(a: PaneBounds, b: PaneBounds)
    ensures
        score(a, b, Direction::Right) is Some == score(b, a, Direction::Left) is Some,
        score(a, b, Direction::Down) is Some == score(b, a, Direction::Up) is Some,
        score(a, b, Direction::Right) is Some ==> score(a, b, Direction::Right)->0.gap == score(
            b,
            a,
            Direction::Left,
        )->0.gap,
        score(a, b, Direction::Down) is Some ==> score(a, b, Direction::Down)->0.gap == score(
            b,
            a,
            Direction::Up,
        )->0.gap,
{
}

/// A pane that shares a side with the focused one is chosen before one that does
/// not, one that shares more before one that shares less, then a nearer one, then
/// one that is less off.
pub proof fn lemma_better_prefers(a: NeighborScore, b: NeighborScore)
    ensures
        a.has_overlap && !b.has_overlap ==> better(a, b),
        a.has_overlap == b.has_overlap && a.overlap > b.overlap ==> better(a, b),
        a.has_overlap == b.has_overlap && a.overlap == b.overlap && a.gap < b.gap ==> better(a, b),
        better(a, b) && a.has_overlap == b.has_overlap && a.overlap == b.overlap && a.gap == b.gap
            ==> a.center_delta < b.center_delta,
        a.center_delta < b.center_delta ==> better(a, b) || b.has_overlap && !a.has_overlap
            || b.overlap > a.overlap || b.gap < a.gap,
{
}

/// The opposite direction.
pub open spec fn opposite(direction: Direction) -> Direction {
    match direction {
        Direction::Left => Direction::Right,
        Direction::Right => Direction::Left,
        Direction::Up => Direction::Down,
        Direction::Down => Direction::Up,
    }
}

/// Opposite directions cross the same splits from opposite sides, and only sideways
/// ones cross those whose children lie side by side. To move on one starts in the
/// first child, to move back in the second.
pub proof fn lemma_crossing(direction: Direction, orientation: Orientation, in_first: bool)
    ensures
        ({
            let split = Ancestor::Split { orientation, in_first };
            let back = Ancestor::Split { orientation, in_first: !in_first };
            &&& split.crossable(direction) == back.crossable(opposite(direction))
            &&& !(split.crossable(direction) && split.crossable(opposite(direction)))
            &&& split.crossable(direction) ==> (orientation == Orientation::Horizontal) == (
            direction == Direction::Left || direction == Direction::Right)
            &&& split.crossable(direction) ==> in_first == (direction == Direction::Right
                || direction == Direction::Down)
            &&& split.crossable(direction) || back.crossable(direction) || (orientation
                == Orientation::Horizontal) == (direction == Direction::Up || direction
                == Direction::Down)
            &&& !Ancestor::Other.crossable(direction)
        }),
{
}

/// The best neighbor among candidates; none where no candidate has a score. Of two
/// equally good ones it is the first.
pub fn best_neighbor(scores: &Vec<Option<NeighborScore>>) -> (r: Option<usize>)
    ensures
        match r {
            Some(i) => {
                &&& i < scores@.len()
                &&& scores@[i as int] is Some
                &&& forall|j: int|
                    0 <= j < scores@.len() && (#[trigger] scores@[j]) is Some ==> !better(
                        scores@[j]->0,
                        scores@[i as int]->0,
                    )
                &&& forall|j: int|
                    0 <= j < i && (#[trigger] scores@[j]) is Some ==> better(
                        scores@[i as int]->0,
                        scores@[j]->0,
                    )
            },
            None => forall|j: int| 0 <= j < scores@.len() ==> (#[trigger] scores@[j]) is None,
        },
{
    let mut best: Option<(usize, NeighborScore)> = None;
    let mut i: usize = 0;
    while i < scores.len()
        invariant
            i <= scores@.len(),
            match best {
                Some((k, score)) => {
                    &&& k < i
                    &&& scores@[k as int] == Some(score)
                    &&& forall|j: int|
                        0 <= j < i && (#[trigger] scores@[j]) is Some ==> !better(
                            scores@[j]->0,
                            score,
                        )
                    &&& forall|j: int|
                        0 <= j < k && (#[trigger] scores@[j]) is Some ==> better(
                            score,
                            scores@[j]->0,
                        )
                },
                None => forall|j: int| 0 <= j < i ==> (#[trigger] scores@[j]) is None,
            },
        decreases scores@.len() - i,
    {
        if let Some(score) = scores[i] {
            let replace = match best {
                Some((_, best_score)) => neighbor_score_better(score, best_score),
                None => true,
            };
            if replace {
                best = Some((i, score));
            }
        }
        i += 1;
    }
    match best {
        Some((k, _)) => Some(k),
        None => None,
    }
}

/// The scores of the panes among which the focus may move, given the bounds of
/// each as far as they can be told.
pub open spec fn scores(
    current: PaneBounds,
    candidates: Seq<Option<PaneBounds>>,
    direction: Direction,
) -> Seq<Option<NeighborScore>> {
    Seq::new(
        candidates.len(),
        |i: int|
            match candidates[i] {
                Some(bounds) => score(current, bounds, direction),
                None => None,
            },
    )
}

/// Whether `i` is the first of the best scores.
pub open spec fn is_best(scores: Seq<Option<NeighborScore>>, i: int) -> bool {
    &&& 0 <= i < scores.len()
    &&& scores[i] is Some
    &&& forall|j: int|
        0 <= j < scores.len() && (#[trigger] scores[j]) is Some ==> !better(scores[j]->0, scores[i]->0)
    &&& forall|j: int|
        0 <= j < i && (#[trigger] scores[j]) is Some ==> better(scores[i]->0, scores[j]->0)
}

/// The only pane that shares a side with the focused one is the one that the focus
/// moves to, wherever the others are.
pub proof fn lemma_only_neighbor_is_best(scores: Seq<Option<NeighborScore>>, i: int)
    requires
        0 <= i < scores.len(),
        scores[i] is Some && scores[i]->0.has_overlap,
        forall|j: int|
            0 <= j < scores.len() && j != i && (#[trigger] scores[j]) is Some
                ==> !scores[j]->0.has_overlap,
    ensures
        is_best(scores, i),
{
}

/// The pane that the focus moves to: the best neighbor of the focused one. None
/// where the bounds of the focused pane cannot be told, or no pane has a score.
pub fn best_directional_leaf_pane(
    current: Option<PaneBounds>,
    candidates: &Vec<Option<PaneBounds>>,
    direction: Direction,
) -> (r: Option<usize>)
    ensures
        match current {
            None => r is None,
            Some(current) => match r {
                Some(i) => is_best(scores(current, candidates@, direction), i as int),
                None => forall|j: int|
                    0 <= j < candidates@.len() ==> (#[trigger] scores(
                        current,
                        candidates@,
                        direction,
                    )[j]) is None,
            },
        },
{
    let current = match current {
        Some(bounds) => bounds,
        None => {
            return None;
        },
    };
    let mut list: Vec<Option<NeighborScore>> = Vec::new();
    let mut i: usize = 0;
    while i < candidates.len()
        invariant
            i <= candidates@.len(),
            list@ =~= scores(current, candidates@, direction).take(i as int),
        decreases candidates@.len() - i,
    {
        let candidate = candidates[i];
        let found = match candidate {
            Some(bounds) => directional_neighbor_score(current, bounds, direction),
            None => None,
        };
        list.push(found);
        i += 1;
    }
    assert(list@ =~= scores(current, candidates@, direction));
    best_neighbor(&list)
}

/// A widget and what is in it.
#[derive(Debug, PartialEq)]
pub enum WidgetTree {
    /// A pane of a workspace.
    Pane { id: u64, children: Vec<WidgetTree> },
    Split {
        id: u64,
        orientation: Orientation,
        start: Option<Box<WidgetTree>>,
        end: Option<Box<WidgetTree>>,
    },
    /// Widgets of which one is shown at a time; its position among them.
    Stack { id: u64, visible: Option<usize>, children: Vec<WidgetTree> },
    Box { id: u64, children: Vec<WidgetTree> },
    /// The area that a terminal is drawn on.
    Area { id: u64 },
    Other { id: u64, children: Vec<WidgetTree> },
}

impl WidgetTree {
    pub open spec fn number(self) -> u64 {
        match self {
            WidgetTree::Pane { id, .. } => id,
            WidgetTree::Split { id, .. } => id,
            WidgetTree::Stack { id, .. } => id,
            WidgetTree::Box { id, .. } => id,
            WidgetTree::Area { id } => id,
            WidgetTree::Other { id, .. } => id,
        }
    }

    pub fn id(&self) -> (r: u64)
        ensures
            r == self.number(),
    {
        match self {
            WidgetTree::Pane { id, .. } => *id,
            WidgetTree::Split { id, .. } => *id,
            WidgetTree::Stack { id, .. } => *id,
            WidgetTree::Box { id, .. } => *id,
            WidgetTree::Area { id } => *id,
            WidgetTree::Other { id, .. } => *id,
        }
    }

    /// The panes in the widget that can be seen, in their order.
    pub open spec fn leaf_panes(self) -> Seq<u64>
        decreases self, 0nat,
    {
        match self {
            WidgetTree::Pane { id, .. } => seq![id],
            WidgetTree::Split { start, end, .. } => (match start {
                Some(child) => child.leaf_panes(),
                None => Seq::empty(),
            }) + (match end {
                Some(child) => child.leaf_panes(),
                None => Seq::empty(),
            }),
            WidgetTree::Stack { visible, children, .. } => match visible {
                Some(i) => if i < children@.len() {
                    children@[i as int].leaf_panes()
                } else {
                    Seq::empty()
                },
                None => Seq::empty(),
            },
            WidgetTree::Box { children, .. } => panes_in(children@, children@.len()),
            WidgetTree::Area { .. } => Seq::empty(),
            WidgetTree::Other { children, .. } => panes_in(children@, children@.len()),
        }
    }

    /// The panes in the widget that can be seen, in their order.
    pub fn collect_leaf_panes(&self) -> (r: Vec<u64>)
        ensures
            r@ == self.leaf_panes(),
        decreases self, 0nat,
    {
        match self {
            WidgetTree::Pane { id, .. } => {
                let mut panes: Vec<u64> = Vec::new();
                panes.push(*id);
                assert(panes@ =~= self.leaf_panes());
                panes
            },
            WidgetTree::Split { start, end, .. } => {
                let mut panes: Vec<u64> = match start {
                    Some(child) => child.collect_leaf_panes(),
                    None => Vec::new(),
                };
                let mut more: Vec<u64> = match end {
                    Some(child) => child.collect_leaf_panes(),
                    None => Vec::new(),
                };
                panes.append(&mut more);
                assert(panes@ =~= self.leaf_panes());
                panes
            },
            WidgetTree::Stack { visible, children, .. } => match visible {
                Some(i) => if *i < children.len() {
                    children[*i].collect_leaf_panes()
                } else {
                    Vec::new()
                },
                None => Vec::new(),
            },
            WidgetTree::Box { children, .. } => collect_in(children),
            WidgetTree::Area { .. } => Vec::new(),
            WidgetTree::Other { children, .. } => collect_in(children),
        }
    }
}

/// The panes in the first `n` widgets of a list.
pub open spec fn panes_in(children: Seq<WidgetTree>, n: nat) -> Seq<u64>
    decreases children, n,
{
    if n == 0 || n > children.len() {
        Seq::empty()
    } else {
        panes_in(children, (n - 1) as nat) + children[n - 1].leaf_panes()
    }
}

fn collect_in(children: &Vec<WidgetTree>) -> (r: Vec<u64>)
    ensures
        r@ == panes_in(children@, children@.len()),
    decreases children, children@.len(),
{
    let mut panes: Vec<u64> = Vec::new();
    let mut i: usize = 0;
    while i < children.len()
        invariant
            i <= children@.len(),
            panes@ == panes_in(children@, i as nat),
        decreases children@.len() - i,
    {
        let ghost before = panes@;
        let mut more = children[i].collect_leaf_panes();
        let ghost added = more@;
        panes.append(&mut more);
        assert(panes@ =~= before + added);
        i += 1;
    }
    panes
}

impl WidgetTree {
    /// The widget that gets the focus first, and whether it is a pane: down the
    /// first child of a split and the visible one of a stack, else the first pane
    /// among the children; the widget itself where there is none.
    pub open spec fn first_leaf(self) -> (u64, bool)
        decreases self, 0nat,
    {
        match self {
            WidgetTree::Pane { id, .. } => (id, true),
            WidgetTree::Split { id, start, end, .. } => match start {
                Some(child) => child.first_leaf(),
                None => match end {
                    Some(child) => child.first_leaf(),
                    None => (id, false),
                },
            },
            WidgetTree::Stack { id, visible, children } => match visible {
                Some(i) if i < children@.len() => children@[i as int].first_leaf(),
                _ => match first_pane_in(children@, children@.len()) {
                    Some(pane) => (pane, true),
                    None => (id, false),
                },
            },
            WidgetTree::Box { id, children } => match first_pane_in(
                children@,
                children@.len(),
            ) {
                Some(pane) => (pane, true),
                None => (id, false),
            },
            WidgetTree::Area { id } => (id, false),
            WidgetTree::Other { id, children } => match first_pane_in(
                children@,
                children@.len(),
            ) {
                Some(pane) => (pane, true),
                None => (id, false),
            },
        }
    }

    /// The widget that gets the focus first, and whether it is a pane.
    pub fn first_leaf_pane(&self) -> (r: (u64, bool))
        ensures
            r == self.first_leaf(),
        decreases self, 0nat,
    {
        match self {
            WidgetTree::Pane { id, .. } => (*id, true),
            WidgetTree::Split { id, start, end, .. } => match start {
                Some(child) => child.first_leaf_pane(),
                None => match end {
                    Some(child) => child.first_leaf_pane(),
                    None => (*id, false),
                },
            },
            WidgetTree::Stack { id, visible, children } => {
                if let Some(i) = visible {
                    if *i < children.len() {
                        return children[*i].first_leaf_pane();
                    }
                }
                match find_first_pane(children) {
                    Some(pane) => (pane, true),
                    None => (*id, false),
                }
            },
            WidgetTree::Box { id, children } => match find_first_pane(children) {
                Some(pane) => (pane, true),
                None => (*id, false),
            },
            WidgetTree::Area { id } => (*id, false),
            WidgetTree::Other { id, children } => match find_first_pane(children) {
                Some(pane) => (pane, true),
                None => (*id, false),
            },
        }
    }

    /// The first area that can be seen.
    pub open spec fn first_area(self) -> Option<u64>
        decreases self, 0nat,
    {
        match self {
            WidgetTree::Pane { children, .. } => first_area_in(children@, children@.len()),
            WidgetTree::Split { start, end, .. } => {
                let in_start = match start {
                    Some(child) => child.first_area(),
                    None => None,
                };
                match in_start {
                    Some(area) => Some(area),
                    None => match end {
                        Some(child) => child.first_area(),
                        None => None,
                    },
                }
            },
            WidgetTree::Stack { visible, children, .. } => match visible {
                Some(i) if i < children@.len() => children@[i as int].first_area(),
                _ => None,
            },
            WidgetTree::Box { children, .. } => first_area_in(children@, children@.len()),
            WidgetTree::Area { id } => Some(id),
            WidgetTree::Other { children, .. } => first_area_in(children@, children@.len()),
        }
    }

    /// The first area that can be seen. Of a stack only the visible child counts.
    pub fn find_gl_area(&self) -> (r: Option<u64>)
        ensures
            r == self.first_area(),
        decreases self, 0nat,
    {
        match self {
            WidgetTree::Pane { children, .. } => find_first_area(children),
            WidgetTree::Split { start, end, .. } => {
                if let Some(child) = start {
                    if let Some(area) = child.find_gl_area() {
                        return Some(area);
                    }
                }
                match end {
                    Some(child) => child.find_gl_area(),
                    None => None,
                }
            },
            WidgetTree::Stack { visible, children, .. } => {
                if let Some(i) = visible {
                    if *i < children.len() {
                        return children[*i].find_gl_area();
                    }
                }
                None
            },
            WidgetTree::Box { children, .. } => find_first_area(children),
            WidgetTree::Area { id } => Some(*id),
            WidgetTree::Other { children, .. } => find_first_area(children),
        }
    }

    /// The widget at an edge: along `axis` the first or the last child of each
    /// split, across it the first; through boxes that are no panes to their first
    /// child.
    pub open spec fn edge_leaf(self, axis: Orientation, prefer_start: bool) -> u64
        decreases self,
    {
        match self {
            WidgetTree::Split { id, orientation, start, end } => {
                let child = if orientation != axis || prefer_start {
                    start
                } else {
                    end
                };
                match child {
                    Some(child) => child.edge_leaf(axis, prefer_start),
                    None => id,
                }
            },
            WidgetTree::Box { id, children } => if children@.len() > 0 {
                children@[0].edge_leaf(axis, prefer_start)
            } else {
                id
            },
            _ => self.number(),
        }
    }

    /// The widget at an edge.
    pub fn find_leaf_pane(&self, axis: Orientation, prefer_start: bool) -> (r: u64)
        ensures
            r == self.edge_leaf(axis, prefer_start),
        decreases self,
    {
        match self {
            WidgetTree::Split { id, orientation, start, end } => {
                let pick_start = if *orientation == axis {
                    prefer_start
                } else {
                    true
                };
                let child = if pick_start {
                    start
                } else {
                    end
                };
                match child {
                    Some(child) => child.find_leaf_pane(axis, prefer_start),
                    None => *id,
                }
            },
            WidgetTree::Box { id, children } => {
                if children.len() > 0 {
                    children[0].find_leaf_pane(axis, prefer_start)
                } else {
                    *id
                }
            },
            _ => self.id(),
        }
    }
}

/// The pane that the focus moves to in the other part of a split that it crosses:
/// the best neighbor of the focused pane, else the one at the edge that lies in the
/// direction.
/// `bounds` holds those of each pane of [`WidgetTree::collect_leaf_panes`].
pub fn focus_pane_in_direction(
    sibling: &WidgetTree,
    current: Option<PaneBounds>,
    bounds: &Vec<Option<PaneBounds>>,
    direction: Direction,
) -> (r: u64)
    requires
        bounds@.len() == sibling.leaf_panes().len(),
    ensures
        current matches Some(current) ==> forall|i: int|
            #[trigger] is_best(scores(current, bounds@, direction), i) ==> r
                == sibling.leaf_panes()[i],
        (current is None || forall|j: int|
            0 <= j < bounds@.len() ==> (#[trigger] scores(current->0, bounds@, direction)[j])
                is None) ==> r == sibling.edge_leaf(
            crossing(direction).0,
            !crossing(direction).1,
        ),
{
    match best_directional_leaf_pane(current, bounds, direction) {
        Some(i) => {
            let panes = sibling.collect_leaf_panes();
            proof {
                let all = scores(current->0, bounds@, direction);
                assert(is_best(all, i as int));
                assert forall|k: int| #[trigger] is_best(all, k) implies k == i by {
                    lemma_one_best(all, i as int, k);
                }
            }
            panes[i]
        },
        None => {
            let (axis, from_start) = crossed_split(direction);
            sibling.find_leaf_pane(axis, !from_start)
        },
    }
}

/// There is one best neighbor.
proof fn lemma_one_best(scores: Seq<Option<NeighborScore>>, a: int, b: int)
    requires
        is_best(scores, a),
        is_best(scores, b),
    ensures
        a == b,
{
    if a < b {
        assert(better(scores[b]->0, scores[a]->0));
    } else if b < a {
        assert(better(scores[a]->0, scores[b]->0));
    }
}

/// The first pane that the first `n` widgets of a list lead to.
pub open spec fn first_pane_in(children: Seq<WidgetTree>, n: nat) -> Option<u64>
    decreases children, n,
{
    if n == 0 || n > children.len() {
        None
    } else {
        match first_pane_in(children, (n - 1) as nat) {
            Some(pane) => Some(pane),
            None => if children[n - 1].first_leaf().1 {
                Some(children[n - 1].first_leaf().0)
            } else {
                None
            },
        }
    }
}

/// The first area in the first `n` widgets of a list.
pub open spec fn first_area_in(children: Seq<WidgetTree>, n: nat) -> Option<u64>
    decreases children, n,
{
    if n == 0 || n > children.len() {
        None
    } else {
        match first_area_in(children, (n - 1) as nat) {
            Some(area) => Some(area),
            None => children[n - 1].first_area(),
        }
    }
}

fn find_first_pane(children: &Vec<WidgetTree>) -> (r: Option<u64>)
    ensures
        r == first_pane_in(children@, children@.len()),
    decreases children, children@.len(),
{
    let mut found: Option<u64> = None;
    let mut i: usize = 0;
    while i < children.len()
        invariant
            i <= children@.len(),
            found == first_pane_in(children@, i as nat),
        decreases children@.len() - i,
    {
        if found.is_none() {
            let (widget, is_pane) = children[i].first_leaf_pane();
            if is_pane {
                found = Some(widget);
            }
        }
        i += 1;
    }
    found
}

fn find_first_area(children: &Vec<WidgetTree>) -> (r: Option<u64>)
    ensures
        r == first_area_in(children@, children@.len()),
    decreases children, children@.len(),
{
    let mut found: Option<u64> = None;
    let mut i: usize = 0;
    while i < children.len()
        invariant
            i <= children@.len(),
            found == first_area_in(children@, i as nat),
        decreases children@.len() - i,
    {
        if found.is_none() {
            found = children[i].find_gl_area();
        }
        i += 1;
    }
    found
}

/// Whether a widget is a layout of panes: a pane, a split of two layouts, or a box
/// around one.
pub open spec fn is_layout(tree: WidgetTree) -> bool
    decreases tree,
{
    match tree {
        WidgetTree::Pane { .. } => true,
        WidgetTree::Split { start, end, .. } => match (start, end) {
            (Some(start), Some(end)) => is_layout(*start) && is_layout(*end),
            _ => false,
        },
        WidgetTree::Box { children, .. } => children@.len() == 1 && is_layout(children@[0]),
        _ => false,
    }
}

/// In a layout of panes the focus goes to one of its panes, whichever edge it comes
/// from, and first to its first pane.
pub proof fn lemma_focus_finds_a_pane(tree: WidgetTree, axis: Orientation, prefer_start: bool)
    requires
        is_layout(tree),
    ensures
        tree.leaf_panes().len() > 0,
        tree.leaf_panes().contains(tree.edge_leaf(axis, prefer_start)),
        tree.first_leaf() == (tree.leaf_panes()[0], true),
    decreases tree,
{
    reveal_with_fuel(WidgetTree::leaf_panes, 2);
    reveal_with_fuel(WidgetTree::first_leaf, 2);
    reveal_with_fuel(panes_in, 3);
    reveal_with_fuel(first_pane_in, 3);
    match tree {
        WidgetTree::Pane { id, .. } => {
            assert(tree.leaf_panes()[0] == id);
            assert(tree.first_leaf() == (id, true));
        },
        WidgetTree::Split { start, end, orientation, .. } => {
            let first = *start->0;
            let second = *end->0;
            lemma_focus_finds_a_pane(first, axis, prefer_start);
            lemma_focus_finds_a_pane(second, axis, prefer_start);
            let a = first.leaf_panes();
            let b = second.leaf_panes();
            assert(tree.leaf_panes() == a + b);
            if orientation != axis || prefer_start {
                let leaf = first.edge_leaf(axis, prefer_start);
                let k = choose|k: int| 0 <= k < a.len() && a[k] == leaf;
                assert((a + b)[k] == leaf);
            } else {
                let leaf = second.edge_leaf(axis, prefer_start);
                let k = choose|k: int| 0 <= k < b.len() && b[k] == leaf;
                assert((a + b)[a.len() + k] == leaf);
            }
            assert(tree.first_leaf() == first.first_leaf());
        },
        WidgetTree::Box { children, .. } => {
            let child = children@[0];
            lemma_focus_finds_a_pane(child, axis, prefer_start);
            assert(panes_in(children@, 0) =~= Seq::<u64>::empty());
            assert(tree.leaf_panes() =~= child.leaf_panes());
            assert(first_pane_in(children@, 0) is None);
            assert(first_pane_in(children@, 1) == Some(child.first_leaf().0));
        },
        _ => {},
    }
}

/// Whether every split of a layout has an orientation.
pub open spec fn split_along(tree: WidgetTree, axis: Orientation) -> bool
    decreases tree,
{
    match tree {
        WidgetTree::Split { orientation, start, end, .. } => {
            &&& orientation == axis
            &&& start matches Some(start) ==> split_along(*start, axis)
            &&& end matches Some(end) ==> split_along(*end, axis)
        },
        WidgetTree::Box { children, .. } => children@.len() > 0 ==> split_along(children@[0], axis),
        _ => true,
    }
}

/// The start edge of a layout is its first pane. The other edge is its last pane
/// along the splits, and its first one across them.
pub proof fn lemma_edges_of_a_layout(tree: WidgetTree, axis: Orientation, across: Orientation)
    requires
        is_layout(tree),
        across != axis,
    ensures
        tree.edge_leaf(axis, true) == tree.leaf_panes()[0],
        split_along(tree, axis) ==> tree.edge_leaf(axis, false) == tree.leaf_panes().last(),
        split_along(tree, across) ==> tree.edge_leaf(axis, false) == tree.leaf_panes()[0],
    decreases tree,
{
    reveal_with_fuel(WidgetTree::leaf_panes, 2);
    reveal_with_fuel(panes_in, 3);
    lemma_focus_finds_a_pane(tree, axis, true);
    match tree {
        WidgetTree::Split { start, end, .. } => {
            let first = *start->0;
            let second = *end->0;
            lemma_edges_of_a_layout(first, axis, across);
            lemma_edges_of_a_layout(second, axis, across);
            lemma_focus_finds_a_pane(first, axis, true);
            lemma_focus_finds_a_pane(second, axis, true);
            assert(tree.leaf_panes() == first.leaf_panes() + second.leaf_panes());
        },
        WidgetTree::Box { children, .. } => {
            let child = children@[0];
            lemma_edges_of_a_layout(child, axis, across);
            assert(panes_in(children@, 0) =~= Seq::<u64>::empty());
            assert(tree.leaf_panes() =~= child.leaf_panes());
        },
        _ => {},
    }
}

/// What the workspace does to take the focus.
#[derive(Clone, Copy, Debug, PartialEq, Eq, Structural)]
pub enum FocusEntry {
    /// The area of a terminal gets it.
    Area(u64),
    /// The pane itself gets it.
    Pane(u64),
    /// The first widget in the pane that can gets it.
    Within(u64),
}

/// Where the focus goes in a workspace whose first pane shows no tab that takes
/// it.
pub fn focus_workspace_entrypoint(pane: &WidgetTree, focusable: bool) -> (r: FocusEntry)
    ensures
        r == (match pane.first_area() {
            Some(area) => FocusEntry::Area(area),
            None => if focusable {
                FocusEntry::Pane(pane.number())
            } else {
                FocusEntry::Within(pane.number())
            },
        }),
{
    match pane.find_gl_area() {
        Some(area) => FocusEntry::Area(area),
        None => if focusable {
            FocusEntry::Pane(pane.id())
        } else {
            FocusEntry::Within(pane.id())
        },
    }
}

/// The nearest widget that is a pane, among the focused widget and those above it.
/// Each is told by whether it is one.
pub fn find_leaf_focused_pane(is_pane: &Vec<bool>) -> (r: Option<usize>)
    ensures
        match r {
            Some(i) => i < is_pane@.len() && is_pane@[i as int] && forall|j: int|
                0 <= j < i ==> !#[trigger] is_pane@[j],
            None => forall|j: int| 0 <= j < is_pane@.len() ==> !#[trigger] is_pane@[j],
        },
{
    let mut i: usize = 0;
    while i < is_pane.len()
        invariant
            i <= is_pane@.len(),
            forall|j: int| 0 <= j < i ==> !#[trigger] is_pane@[j],
        decreases is_pane@.len() - i,
    {
        if is_pane[i] {
            return Some(i);
        }
        i += 1;
    }
    None
}

/// The workspace and the pane that a command is for: in the workspace that is
/// shown, the pane that has the focus, else its first one. `focused` is the pane
/// that [`find_leaf_focused_pane`] leads to, `root` the widget of the workspace.
pub fn find_focused_pane(workspaces: &Workspaces, focused: Option<u64>, root: &WidgetTree) -> (r:
    Option<(String, u64)>)
    ensures
        match workspaces.active() {
            None => r is None,
            Some(w) => {
                &&& r matches Some(found)
                &&& found.0@ == w.id
                &&& found.1 == (match focused {
                    Some(pane) => pane,
                    None => root.first_leaf().0,
                })
            },
        },
        r is Some <==> workspaces.active() is Some,
        r matches Some(found) ==> (focused matches Some(pane) ==> found.1 == pane),
{
    match workspaces.active_workspace() {
        None => None,
        Some(workspace) => {
            let pane: u64 = match focused {
                Some(pane) => pane,
                None => root.first_leaf_pane().0,
            };
            Some((workspace.id.clone(), pane))
        },
    }
}

impl WidgetTree {
    /// The areas in a widget that can be seen, in their order.
    pub open spec fn areas(self) -> Seq<u64>
        decreases self, 0nat,
    {
        match self {
            WidgetTree::Pane { children, .. } => areas_in(children@, children@.len()),
            WidgetTree::Split { start, end, .. } => (match start {
                Some(child) => child.areas(),
                None => Seq::empty(),
            }) + (match end {
                Some(child) => child.areas(),
                None => Seq::empty(),
            }),
            WidgetTree::Stack { visible, children, .. } => match visible {
                Some(i) => if i < children@.len() {
                    children@[i as int].areas()
                } else {
                    Seq::empty()
                },
                None => Seq::empty(),
            },
            WidgetTree::Box { children, .. } => areas_in(children@, children@.len()),
            WidgetTree::Area { id } => seq![id],
            WidgetTree::Other { children, .. } => areas_in(children@, children@.len()),
        }
    }
}

/// The areas in the first `n` widgets of a list.
pub open spec fn areas_in(children: Seq<WidgetTree>, n: nat) -> Seq<u64>
    decreases children, n,
{
    if n == 0 || n > children.len() {
        Seq::empty()
    } else {
        areas_in(children, (n - 1) as nat) + children[n - 1].areas()
    }
}

/// The first of a list of numbers, if it is not empty.
pub open spec fn first_listed(list: Seq<u64>) -> Option<u64> {
    if list.len() > 0 {
        Some(list[0])
    } else {
        None
    }
}

/// The area that takes the focus in a widget is the first of those that can be seen
/// in it, and none takes it only where there is none.
pub proof fn lemma_first_area_is_first(tree: WidgetTree)
    ensures
        tree.first_area() == first_listed(tree.areas()),
    decreases tree, 0nat,
{
    match tree {
        WidgetTree::Pane { children, .. } => {
            lemma_first_area_in_list(children@, children@.len());
        },
        WidgetTree::Split { start, end, .. } => {
            if let Some(child) = start {
                lemma_first_area_is_first(*child);
            }
            if let Some(child) = end {
                lemma_first_area_is_first(*child);
            }
        },
        WidgetTree::Stack { visible, children, .. } => {
            if let Some(i) = visible {
                if i < children@.len() {
                    lemma_first_area_is_first(children@[i as int]);
                }
            }
        },
        WidgetTree::Box { children, .. } => {
            lemma_first_area_in_list(children@, children@.len());
        },
        WidgetTree::Area { .. } => {},
        WidgetTree::Other { children, .. } => {
            lemma_first_area_in_list(children@, children@.len());
        },
    }
}

proof fn lemma_first_area_in_list(children: Seq<WidgetTree>, n: nat)
    requires
        n <= children.len(),
    ensures
        first_area_in(children, n) == first_listed(areas_in(children, n)),
    decreases children, n,
{
    if n > 0 {
        lemma_first_area_in_list(children, (n - 1) as nat);
        lemma_first_area_is_first(children[n - 1]);
    }
}

/// Of a stack only the page that is shown counts. A split with one child is that
/// child, as far as its panes and areas go, and a pane is itself.
pub proof fn lemma_shown_widgets_count(tree: WidgetTree)
    ensures
        tree matches WidgetTree::Stack { visible: Some(i), children, .. } ==> (i < children@.len()
            ==> {
            &&& tree.leaf_panes() == children@[i as int].leaf_panes()
            &&& tree.first_leaf() == children@[i as int].first_leaf()
            &&& tree.first_area() == children@[i as int].first_area()
        }),
        tree matches WidgetTree::Stack { visible: None, .. } ==> tree.leaf_panes().len() == 0
            && tree.first_area() is None,
        tree matches WidgetTree::Split { start: None, end: Some(child), .. } ==> {
            &&& tree.leaf_panes() == child.leaf_panes()
            &&& tree.first_leaf() == child.first_leaf()
            &&& tree.first_area() == child.first_area()
        },
        tree matches WidgetTree::Split { start: Some(child), end: None, .. } ==> {
            &&& tree.leaf_panes() == child.leaf_panes()
            &&& tree.first_leaf() == child.first_leaf()
            &&& tree.first_area() == child.first_area()
        },
        tree matches WidgetTree::Pane { id, .. } ==> tree.leaf_panes() == seq![id]
            && tree.first_leaf() == (id, true),
        tree matches WidgetTree::Area { id } ==> tree.leaf_panes().len() == 0 && tree.first_area()
            == Some(id) && !tree.first_leaf().1,
{
    if let WidgetTree::Split { start, end, .. } = tree {
        if let Some(child) = end {
            assert(Seq::<u64>::empty() + child.leaf_panes() =~= child.leaf_panes());
        }
        if let Some(child) = start {
            assert(child.leaf_panes() + Seq::<u64>::empty() =~= child.leaf_panes());
        }
    }
}

} // verus!
