//! The split layout of a workspace: a tree whose leaves are panes, and the state
//! machine that rebuilds the widgets from it.
//!
//! Panes and other widgets are known by number.
use vstd::prelude::*;
use vstd::string::*;

use crate::float_bits::{
    double_below, double_is_nan, double_rank, DOUBLE_INFINITY, DOUBLE_SIGN,
};
use crate::text::optional_text;

verus! {

/// How the two children of a split lie: side by side, or one above the other.
#[derive(Clone, Copy, Debug, PartialEq, Eq, Structural)]
pub enum Orientation {
    Horizontal,
    Vertical,
}

/// A node of the split tree.
#[derive(Debug, PartialEq)]
pub enum SplitNode {
    Leaf { pane: u64 },
    Split {
        orientation: Orientation,
        /// Share of the first child, as a double-precision pattern.
        ratio: u64,
        left: Box<SplitNode>,
        right: Box<SplitNode>,
    },
}

impl SplitNode {
    /// The panes from first to last.
    pub open spec fn panes(self) -> Seq<u64>
        decreases self,
    {
        match self {
            SplitNode::Leaf { pane } => seq![pane],
            SplitNode::Split { left, right, .. } => left.panes() + right.panes(),
        }
    }

    /// The tree with the first leaf of `target` replaced.
    pub open spec fn replaced(self, target: u64, replacement: SplitNode) -> SplitNode
        decreases self,
    {
        match self {
            SplitNode::Leaf { pane } => if pane == target {
                replacement
            } else {
                self
            },
            SplitNode::Split { orientation, ratio, left, right } => if left.panes().contains(
                target,
            ) {
                SplitNode::Split {
                    orientation,
                    ratio,
                    left: Box::new(left.replaced(target, replacement)),
                    right,
                }
            } else {
                SplitNode::Split {
                    orientation,
                    ratio,
                    left,
                    right: Box::new(right.replaced(target, replacement)),
                }
            },
        }
    }

    /// Whether `target` is a leaf below a split, so that a sibling can take the
    /// split's place.
    pub open spec fn removable(self, target: u64) -> bool {
        self is Split && self.panes().contains(target)
    }

    /// The tree in which the sibling of a leaf of `target` stands in place of
    /// their split; the tree itself where there is no such leaf.
    pub open spec fn removed(self, target: u64) -> SplitNode
        decreases self,
    {
        match self {
            SplitNode::Leaf { .. } => self,
            SplitNode::Split { orientation, ratio, left, right } => {
                if *left == (SplitNode::Leaf { pane: target }) {
                    *right
                } else if *right == (SplitNode::Leaf { pane: target }) {
                    *left
                } else if left.removable(target) {
                    SplitNode::Split {
                        orientation,
                        ratio,
                        left: Box::new(left.removed(target)),
                        right,
                    }
                } else {
                    SplitNode::Split {
                        orientation,
                        ratio,
                        left,
                        right: Box::new(right.removed(target)),
                    }
                }
            },
        }
    }

    pub fn is_leaf(&self) -> (r: bool)
        ensures
            r == (self is Leaf),
    {
        match self {
            SplitNode::Leaf { .. } => true,
            SplitNode::Split { .. } => false,
        }
    }

    /// Whether a pane is in the tree.
    pub fn contains_pane(&self, target: u64) -> (r: bool)
        ensures
            r == self.panes().contains(target),
        decreases self,
    {
        match self {
            SplitNode::Leaf { pane } => {
                assert(self.panes()[0] == pane);
                *pane == target
            },
            SplitNode::Split { left, right, .. } => {
                proof {
                    lemma_concat_contains(left.panes(), right.panes(), target);
                }
                left.contains_pane(target) || right.contains_pane(target)
            },
        }
    }

    /// Finds the first leaf of `target` and replaces it. Says whether there was
    /// one.
    pub fn replace(&mut self, target: u64, replacement: SplitNode) -> (r: bool)
        ensures
            r == old(self).panes().contains(target),
            *final(self) == old(self).replaced(target, replacement),
        decreases *old(self),
    {
        proof {
            assert(*self is Leaf ==> self.panes()[0] == self->pane);
        }
        match self {
            SplitNode::Leaf { pane } => {
                if *pane == target {
                    *self = replacement;
                    true
                } else {
                    false
                }
            },
            SplitNode::Split { left, right, .. } => {
                proof {
                    lemma_concat_contains(left.panes(), right.panes(), target);
                }
                if left.contains_pane(target) {
                    left.replace(target, replacement)
                } else {
                    right.replace(target, replacement)
                }
            },
        }
    }

    /// Finds a leaf of `target` and promotes its sibling in place of their split.
    /// Says whether there was one.
    pub fn remove(&mut self, target: u64) -> (r: bool)
        ensures
            r == old(self).removable(target),
            *final(self) == old(self).removed(target),
            old(self).panes().no_duplicates() ==> forall|path: Seq<bool>, second: bool|
                #[trigger] old(self).at(path.push(second)) == Some(SplitNode::Leaf { pane: target })
                    ==> final(self).at(path) == old(self).at(path.push(!second)),
        decreases *old(self),
    {
        proof {
            if self.panes().no_duplicates() {
                assert forall|path: Seq<bool>, second: bool|
                    #[trigger] self.at(path.push(second)) == Some(
                        SplitNode::Leaf { pane: target },
                    ) implies self.removed(target).at(path) == self.at(path.push(!second)) by {
                    lemma_sibling_found(*self, path, second, target);
                }
            }
        }
        match self {
            SplitNode::Leaf { .. } => false,
            SplitNode::Split { left, right, .. } => {
                proof {
                    lemma_concat_contains(left.panes(), right.panes(), target);
                    if **left is Leaf {
                        lemma_leaf_panes(**left);
                    }
                    if **right is Leaf {
                        lemma_leaf_panes(**right);
                    }
                    if !left.removable(target) {
                        lemma_removed_unchanged(**left, target);
                    }
                }
                if left.is_leaf_of(target) {
                    let mut promoted = SplitNode::Leaf { pane: target };
                    core::mem::swap(&mut **right, &mut promoted);
                    *self = promoted;
                    return true;
                }
                if right.is_leaf_of(target) {
                    let mut promoted = SplitNode::Leaf { pane: target };
                    core::mem::swap(&mut **left, &mut promoted);
                    *self = promoted;
                    return true;
                }
                left.remove(target) || right.remove(target)
            },
        }
    }

    fn is_leaf_of(&self, target: u64) -> (r: bool)
        ensures
            r == (*self == (SplitNode::Leaf { pane: target })),
    {
        match self {
            SplitNode::Leaf { pane } => *pane == target,
            SplitNode::Split { .. } => false,
        }
    }
}

proof fn lemma_leaf_panes(node: SplitNode)
    requires
        node is Leaf,
    ensures
        forall|x: u64| node.panes().contains(x) <==> node == (SplitNode::Leaf { pane: x }),
{
    assert(node.panes()[0] == node->pane);
}

/// Removing a pane that is not below a split changes nothing.
proof fn lemma_removed_unchanged(node: SplitNode, target: u64)
    requires
        !node.removable(target),
    ensures
        node.removed(target) == node,
    decreases node,
{
    match node {
        SplitNode::Leaf { .. } => {},
        SplitNode::Split { left, right, .. } => {
            lemma_concat_contains(left.panes(), right.panes(), target);
            if *left is Leaf {
                lemma_leaf_panes(*left);
            }
            if *right is Leaf {
                lemma_leaf_panes(*right);
            }
            lemma_removed_unchanged(*right, target);
        },
    }
}

proof fn lemma_concat_contains(a: Seq<u64>, b: Seq<u64>, x: u64)
    ensures
        (a + b).contains(x) == (a.contains(x) || b.contains(x)),
{
    if a.contains(x) {
        let i = choose|i: int| 0 <= i < a.len() && a[i] == x;
        assert((a + b)[i] == x);
    }
    if b.contains(x) {
        let i = choose|i: int| 0 <= i < b.len() && b[i] == x;
        assert((a + b)[a.len() + i] == x);
    }
}

/// Replacing a leaf puts the panes of the replacement where the first occurrence
/// of the pane was and leaves all others in their order.
pub proof fn lemma_replaced_panes(node: SplitNode, target: u64, replacement: SplitNode) -> (i: int)
    requires
        node.panes().contains(target),
    ensures
        0 <= i < node.panes().len(),
        node.panes()[i] == target,
        forall|j: int| 0 <= j < i ==> node.panes()[j] != target,
        node.replaced(target, replacement).panes() == node.panes().take(i) + replacement.panes()
            + node.panes().skip(i + 1),
    decreases node,
{
    match node {
        SplitNode::Leaf { pane } => {
            assert(node.panes()[0] == pane);
            assert(node.panes().take(0) + replacement.panes() + node.panes().skip(1)
                =~= replacement.panes());
            0
        },
        SplitNode::Split { left, right, .. } => {
            let a = left.panes();
            let b = right.panes();
            lemma_concat_contains(a, b, target);
            if a.contains(target) {
                let i = lemma_replaced_panes(*left, target, replacement);
                assert((a + b).take(i) =~= a.take(i));
                assert((a + b).skip(i + 1) =~= a.skip(i + 1) + b);
                assert(node.replaced(target, replacement).panes() =~= (a + b).take(i)
                    + replacement.panes() + (a + b).skip(i + 1));
                i
            } else {
                let i = lemma_replaced_panes(*right, target, replacement);
                assert((a + b).take(a.len() + i) =~= a + b.take(i));
                assert((a + b).skip(a.len() + i + 1) =~= b.skip(i + 1));
                assert(node.replaced(target, replacement).panes() =~= (a + b).take(a.len() + i)
                    + replacement.panes() + (a + b).skip(a.len() + i + 1));
                assert forall|j: int| 0 <= j < a.len() + i implies (a + b)[j] != target by {
                    if j < a.len() {
                        assert(a[j] == (a + b)[j]);
                    }
                }
                a.len() + i
            }
        },
    }
}

/// Removing a pane takes one occurrence of it out and leaves all others in their
/// order.
pub proof fn lemma_removed_panes(node: SplitNode, target: u64) -> (i: int)
    requires
        node.removable(target),
    ensures
        0 <= i < node.panes().len(),
        node.panes()[i] == target,
        node.removed(target).panes() == node.panes().remove(i),
    decreases node,
{
    match node {
        SplitNode::Leaf { .. } => 0,
        SplitNode::Split { left, right, .. } => {
            let a = left.panes();
            let b = right.panes();
            lemma_concat_contains(a, b, target);
            if *left is Leaf {
                lemma_leaf_panes(*left);
            }
            if *right is Leaf {
                lemma_leaf_panes(*right);
            }
            if *left == (SplitNode::Leaf { pane: target }) {
                assert((a + b).remove(0) =~= b);
                0
            } else if *right == (SplitNode::Leaf { pane: target }) {
                assert((a + b).remove(a.len() as int) =~= a);
                a.len() as int
            } else if left.removable(target) {
                let i = lemma_removed_panes(*left, target);
                assert((a + b).remove(i) =~= a.remove(i) + b);
                i
            } else {
                let i = lemma_removed_panes(*right, target);
                assert((a + b).remove(a.len() + i) =~= a + b.remove(i));
                a.len() + i
            }
        },
    }
}

/// The split of a pane and a new one.
pub open spec fn split_of(
    target: u64,
    new_pane: u64,
    orientation: Orientation,
    new_pane_first: bool,
    ratio: u64,
) -> SplitNode {
    let old_leaf = SplitNode::Leaf { pane: target };
    let new_leaf = SplitNode::Leaf { pane: new_pane };
    if new_pane_first {
        SplitNode::Split { orientation, ratio, left: Box::new(new_leaf), right: Box::new(old_leaf) }
    } else {
        SplitNode::Split { orientation, ratio, left: Box::new(old_leaf), right: Box::new(new_leaf) }
    }
}

/// Removing a pane right after it was split off gives the tree back.
pub proof fn lemma_remove_undoes_split(
    node: SplitNode,
    target: u64,
    new_pane: u64,
    orientation: Orientation,
    new_pane_first: bool,
    ratio: u64,
)
    requires
        node.panes().contains(target),
        !node.panes().contains(new_pane),
    ensures
        ({
            let split = node.replaced(
                target,
                split_of(target, new_pane, orientation, new_pane_first, ratio),
            );
            split.removable(new_pane) && split.removed(new_pane) == node
        }),
    decreases node,
{
    let leaf = split_of(target, new_pane, orientation, new_pane_first, ratio);
    let split = node.replaced(target, leaf);
    reveal_with_fuel(SplitNode::panes, 2);
    assert(leaf.panes() =~= (if new_pane_first {
        seq![new_pane, target]
    } else {
        seq![target, new_pane]
    }));
    assert(leaf.panes()[if new_pane_first {
        0int
    } else {
        1int
    }] == new_pane);
    match node {
        SplitNode::Leaf { pane } => {
            assert(node.panes()[0] == pane);
        },
        SplitNode::Split { left, right, .. } => {
            let a = left.panes();
            let b = right.panes();
            lemma_concat_contains(a, b, target);
            lemma_concat_contains(a, b, new_pane);
            if *left is Leaf {
                lemma_leaf_panes(*left);
            }
            if *right is Leaf {
                lemma_leaf_panes(*right);
            }
            if a.contains(target) {
                lemma_remove_undoes_split(
                    *left,
                    target,
                    new_pane,
                    orientation,
                    new_pane_first,
                    ratio,
                );
                let l = left.replaced(target, leaf);
                lemma_concat_contains(l.panes(), b, new_pane);
            } else {
                lemma_remove_undoes_split(
                    *right,
                    target,
                    new_pane,
                    orientation,
                    new_pane_first,
                    ratio,
                );
                let r = right.replaced(target, leaf);
                lemma_concat_contains(a, r.panes(), new_pane);
            }
        },
    }
}

impl SplitNode {
    /// The tree with the ratio of the split at a path set. A path leads from the
    /// root down, `true` to the second child; one that ends at a leaf sets
    /// nothing.
    pub open spec fn with_ratio(self, path: Seq<bool>, ratio: u64) -> SplitNode
        decreases self,
    {
        match self {
            SplitNode::Leaf { .. } => self,
            SplitNode::Split { orientation, ratio: current, left, right } => if path.len() == 0 {
                SplitNode::Split { orientation, ratio, left, right }
            } else if path[0] {
                SplitNode::Split {
                    orientation,
                    ratio: current,
                    left,
                    right: Box::new(right.with_ratio(path.skip(1), ratio)),
                }
            } else {
                SplitNode::Split {
                    orientation,
                    ratio: current,
                    left: Box::new(left.with_ratio(path.skip(1), ratio)),
                    right,
                }
            },
        }
    }

    /// Sets the ratio of the split at a path, as a drag of its divider does.
    pub fn set_ratio(&mut self, path: &Vec<bool>, ratio: u64, limits: RatioLimits)
        requires
            limits.wf(),
        ensures
            *final(self) == old(self).with_ratio(path@, limits.clamped(ratio)),
    {
        assert(path@.skip(0) =~= path@);
        self.set_ratio_from(path, 0, limits.clamp_split_ratio(ratio));
    }

    fn set_ratio_from(&mut self, path: &Vec<bool>, from: usize, ratio: u64)
        requires
            from <= path@.len(),
        ensures
            *final(self) == old(self).with_ratio(path@.skip(from as int), ratio),
        decreases *old(self),
    {
        match self {
            SplitNode::Leaf { .. } => {},
            SplitNode::Split { ratio: current, left, right, .. } => {
                if from == path.len() {
                    *current = ratio;
                } else {
                    assert(path@.skip(from as int).skip(1) =~= path@.skip(from + 1));
                    if path[from] {
                        right.set_ratio_from(path, from + 1, ratio);
                    } else {
                        left.set_ratio_from(path, from + 1, ratio);
                    }
                }
            },
        }
    }
}

/// The limits of a ratio, as double-precision patterns.
#[derive(Clone, Copy, Debug, PartialEq, Eq, Structural)]
pub struct RatioLimits {
    pub least: u64,
    pub most: u64,
}

impl RatioLimits {
    /// The limits are numbers, in order.
    pub open spec fn wf(self) -> bool {
        &&& !double_is_nan(self.least)
        &&& !double_is_nan(self.most)
        &&& double_rank(self.least) <= double_rank(self.most)
    }

    /// A ratio moved between the limits. What is no number stays.
    pub open spec fn clamped(self, ratio: u64) -> u64 {
        if double_is_nan(ratio) {
            ratio
        } else if double_rank(ratio) < double_rank(self.least) {
            self.least
        } else if double_rank(ratio) > double_rank(self.most) {
            self.most
        } else {
            ratio
        }
    }

    /// Moves a ratio between the limits.
    pub fn clamp_split_ratio(self, ratio: u64) -> (r: u64)
        requires
            self.wf(),
        ensures
            r == self.clamped(ratio),
    {
        if ratio % DOUBLE_SIGN > DOUBLE_INFINITY {
            ratio
        } else if double_below(ratio, self.least) {
            self.least
        } else if double_below(self.most, ratio) {
            self.most
        } else {
            ratio
        }
    }
}

/// A ratio that was moved between the limits lies there.
pub proof fn lemma_clamped_once(limits: RatioLimits, ratio: u64)
    requires
        limits.wf(),
    ensures
        limits.clamped(limits.clamped(ratio)) == limits.clamped(ratio),
{
}

impl SplitNode {
    /// Whether every ratio lies between the limits.
    pub open spec fn within(self, limits: RatioLimits) -> bool
        decreases self,
    {
        match self {
            SplitNode::Leaf { .. } => true,
            SplitNode::Split { ratio, left, right, .. } => {
                &&& limits.clamped(ratio) == ratio
                &&& left.within(limits)
                &&& right.within(limits)
            },
        }
    }
}

/// The divider of a split that is on screen. Ratios are double-precision patterns.
#[derive(Clone, Copy, Debug, PartialEq, Eq, Structural)]
pub struct SplitDivider {
    /// The ratio of the split in the tree, which is kept between sessions.
    pub ratio: u64,
    /// The ratio that the divider was last seen at.
    pub shown: u64,
    /// The divider is being placed, not dragged.
    pub applying: bool,
}

/// The extent of a widget along an orientation.
pub fn extent_along(orientation: Orientation, width: i32, height: i32) -> (r: i32)
    ensures
        r == (if orientation == Orientation::Horizontal {
            width
        } else {
            height
        }),
{
    if orientation == Orientation::Horizontal {
        width
    } else {
        height
    }
}

impl SplitDivider {
    /// The divider of a split that is put on screen: seen at the usual place until
    /// it has been placed.
    pub fn new(ratio: u64, usual: u64, limits: RatioLimits) -> (r: Self)
        requires
            limits.wf(),
        ensures
            r == (SplitDivider { ratio, shown: limits.clamped(usual), applying: false }),
    {
        SplitDivider { ratio, shown: limits.clamp_split_ratio(usual), applying: false }
    }

    /// Begins to place the divider at a ratio, which a widget without extent puts
    /// off. Gives the ratio that it is placed at.
    pub fn begin_apply_ratio(&mut self, ratio: u64, size: i32, limits: RatioLimits) -> (r: Option<
        u64,
    >)
        requires
            limits.wf(),
        ensures
            r == (if size > 0 {
                Some(limits.clamped(ratio))
            } else {
                None
            }),
            *final(self) == (if size > 0 {
                SplitDivider { applying: true, ..*old(self) }
            } else {
                *old(self)
            }),
    {
        if size <= 0 {
            return None;
        }
        self.applying = true;
        Some(limits.clamp_split_ratio(ratio))
    }

    /// The divider stands at a ratio now: `in_tree` is what the tree makes of its
    /// place, `on_screen` what the widget does. Only a drag reaches the tree.
    pub fn position_notify(&mut self, in_tree: u64, on_screen: u64, limits: RatioLimits)
        requires
            limits.wf(),
        ensures
            *final(self) == old(self).moved(in_tree, on_screen, limits),
    {
        self.shown = limits.clamp_split_ratio(on_screen);
        if !self.applying {
            self.ratio = limits.clamp_split_ratio(in_tree);
        }
    }

    /// The divider seen at another place.
    pub open spec fn moved(self, in_tree: u64, on_screen: u64, limits: RatioLimits) -> Self {
        SplitDivider {
            ratio: if self.applying {
                self.ratio
            } else {
                limits.clamped(in_tree)
            },
            shown: limits.clamped(on_screen),
            applying: self.applying,
        }
    }

    /// The divider has been placed at a ratio.
    pub fn end_apply_ratio(&mut self, ratio: u64, limits: RatioLimits)
        requires
            limits.wf(),
        ensures
            *final(self) == (SplitDivider {
                shown: limits.clamped(ratio),
                applying: false,
                ..*old(self)
            }),
    {
        self.shown = limits.clamp_split_ratio(ratio);
        self.applying = false;
    }
}

/// The divider after it was seen at some places, one after the other.
pub open spec fn seen_at(
    divider: SplitDivider,
    places: Seq<(u64, u64)>,
    limits: RatioLimits,
) -> SplitDivider
    decreases places.len(),
{
    if places.len() == 0 {
        divider
    } else {
        let (in_tree, on_screen) = places.last();
        seen_at(divider, places.drop_last(), limits).moved(in_tree, on_screen, limits)
    }
}

/// Wherever a divider is seen while it is being placed, the ratio in the tree
/// stays: only a drag changes what is kept.
pub proof fn lemma_placing_keeps_ratio(
    divider: SplitDivider,
    places: Seq<(u64, u64)>,
    limits: RatioLimits,
)
    requires
        divider.applying,
    ensures
        seen_at(divider, places, limits).ratio == divider.ratio,
        seen_at(divider, places, limits).applying,
    decreases places.len(),
{
    if places.len() > 0 {
        lemma_placing_keeps_ratio(divider, places.drop_last(), limits);
    }
}

/// Dragging a divider moves no pane.
pub proof fn lemma_ratio_keeps_panes(node: SplitNode, path: Seq<bool>, ratio: u64)
    ensures
        node.with_ratio(path, ratio).panes() == node.panes(),
    decreases node,
{
    match node {
        SplitNode::Leaf { .. } => {},
        SplitNode::Split { left, right, .. } => {
            if path.len() > 0 {
                lemma_ratio_keeps_panes(*left, path.skip(1), ratio);
                lemma_ratio_keeps_panes(*right, path.skip(1), ratio);
            }
        },
    }
}

/// What a pane is opened with.
#[derive(Debug, PartialEq)]
pub enum PaneState {
    /// One terminal, in a directory where one is given.
    Fallback(Option<String>),
    /// One browser, at an address where one is given.
    BrowserOnly(Option<String>),
    /// What was recorded of a pane, by the pane's number.
    Recorded(u64),
}

/// A layout as it is kept between sessions.
#[derive(Debug, PartialEq)]
pub enum LayoutNodeState {
    Pane(PaneState),
    Split {
        orientation: Orientation,
        /// Share of the first child, as a double-precision pattern.
        ratio: u64,
        start: Box<LayoutNodeState>,
        end: Box<LayoutNodeState>,
    },
}

/// What a [`PaneState`] stands for.
pub ghost enum PaneStateView {
    Fallback(Option<Seq<char>>),
    BrowserOnly(Option<Seq<char>>),
    Recorded(u64),
}

/// What a [`LayoutNodeState`] stands for.
pub ghost enum LayoutView {
    Pane(PaneStateView),
    Split { orientation: Orientation, ratio: u64, start: Box<LayoutView>, end: Box<LayoutView> },
}

impl View for PaneState {
    type V = PaneStateView;

    open spec fn view(&self) -> PaneStateView {
        match self {
            PaneState::Fallback(dir) => PaneStateView::Fallback(optional_text(*dir)),
            PaneState::BrowserOnly(uri) => PaneStateView::BrowserOnly(optional_text(*uri)),
            PaneState::Recorded(pane) => PaneStateView::Recorded(*pane),
        }
    }
}

impl View for LayoutNodeState {
    type V = LayoutView;

    open spec fn view(&self) -> LayoutView {
        self.model()
    }
}

impl LayoutNodeState {
    pub open spec fn model(self) -> LayoutView
        decreases self,
    {
        match self {
            LayoutNodeState::Pane(state) => LayoutView::Pane(state@),
            LayoutNodeState::Split { orientation, ratio, start, end } => LayoutView::Split {
                orientation,
                ratio,
                start: Box::new(start.model()),
                end: Box::new(end.model()),
            },
        }
    }
}

impl LayoutView {
    /// Number of panes.
    pub open spec fn size(self) -> nat
        decreases self,
    {
        match self {
            LayoutView::Pane(_) => 1,
            LayoutView::Split { start, end, .. } => start.size() + end.size(),
        }
    }

    /// The split tree of this layout, its panes numbered from `first` on and its
    /// ratios between the limits.
    pub open spec fn built(self, first: nat, limits: RatioLimits) -> SplitNode
        decreases self,
    {
        match self {
            LayoutView::Pane(_) => SplitNode::Leaf { pane: first as u64 },
            LayoutView::Split { orientation, ratio, start, end } => SplitNode::Split {
                orientation,
                ratio: limits.clamped(ratio),
                left: Box::new(start.built(first, limits)),
                right: Box::new(end.built(first + start.size(), limits)),
            },
        }
    }
}

impl SplitNode {
    /// The layout to keep: what was recorded of a pane, or where nothing was, one
    /// terminal in the workspace's directory.
    pub open spec fn layout(self, recorded: Seq<u64>, directory: Option<Seq<char>>) -> LayoutView
        decreases self,
    {
        match self {
            SplitNode::Leaf { pane } => LayoutView::Pane(
                if recorded.contains(pane) {
                    PaneStateView::Recorded(pane)
                } else {
                    PaneStateView::Fallback(directory)
                },
            ),
            SplitNode::Split { orientation, ratio, left, right } => LayoutView::Split {
                orientation,
                ratio,
                start: Box::new(left.layout(recorded, directory)),
                end: Box::new(right.layout(recorded, directory)),
            },
        }
    }

    /// The same splits over panes numbered from `first` on.
    pub open spec fn renumbered(self, first: nat) -> SplitNode
        decreases self,
    {
        match self {
            SplitNode::Leaf { .. } => SplitNode::Leaf { pane: first as u64 },
            SplitNode::Split { orientation, ratio, left, right } => SplitNode::Split {
                orientation,
                ratio,
                left: Box::new(left.renumbered(first)),
                right: Box::new(right.renumbered(first + left.panes().len())),
            },
        }
    }

    /// The layout to keep for the next session. `recorded` lists the panes of
    /// which a record exists.
    pub fn snapshot(&self, recorded: &Vec<u64>, working_directory: Option<&str>) -> (r:
        LayoutNodeState)
        ensures
            r@ == self.layout(
                recorded@,
                match working_directory {
                    Some(dir) => Some(dir@),
                    None => None,
                },
            ),
        decreases self,
    {
        match self {
            SplitNode::Leaf { pane } => {
                if lists(recorded, *pane) {
                    LayoutNodeState::Pane(PaneState::Recorded(*pane))
                } else {
                    LayoutNodeState::Pane(
                        PaneState::Fallback(
                            match working_directory {
                                Some(dir) => Some(dir.to_owned()),
                                None => None,
                            },
                        ),
                    )
                }
            },
            SplitNode::Split { orientation, ratio, left, right } => LayoutNodeState::Split {
                orientation: *orientation,
                ratio: *ratio,
                start: Box::new(left.snapshot(recorded, working_directory)),
                end: Box::new(right.snapshot(recorded, working_directory)),
            },
        }
    }
}

/// Whether a list holds a number.
pub fn lists(items: &Vec<u64>, x: u64) -> (r: bool)
    ensures
        r == items@.contains(x),
{
    let mut i: usize = 0;
    while i < items.len()
        invariant
            i <= items@.len(),
            forall|j: int| 0 <= j < i ==> items@[j] != x,
        decreases items@.len() - i,
    {
        if items[i] == x {
            assert(items@[i as int] == x);
            return true;
        }
        i += 1;
    }
    false
}

/// The split tree of a kept layout, its panes numbered from `first` on in their
/// order and its ratios between the limits, and the number after the last.
pub fn build_split_node_from_layout(
    layout: &LayoutNodeState,
    first: u64,
    limits: RatioLimits,
) -> (r: (SplitNode, u64))
    requires
        first + layout@.size() <= u64::MAX,
        limits.wf(),
    ensures
        r.0 == layout@.built(first as nat, limits),
        r.1 == first + layout@.size(),
    decreases layout,
{
    match layout {
        LayoutNodeState::Pane(_) => (SplitNode::Leaf { pane: first }, first + 1),
        LayoutNodeState::Split { orientation, ratio, start, end } => {
            let (left, middle) = build_split_node_from_layout(start, first, limits);
            let (right, last) = build_split_node_from_layout(end, middle, limits);
            (
                SplitNode::Split {
                    orientation: *orientation,
                    ratio: limits.clamp_split_ratio(*ratio),
                    left: Box::new(left),
                    right: Box::new(right),
                },
                last,
            )
        },
    }
}

/// The panes of a built layout are numbered in their order.
pub proof fn lemma_built_panes(layout: LayoutView, first: nat, limits: RatioLimits)
    requires
        first + layout.size() <= u64::MAX,
    ensures
        layout.built(first, limits).panes() == Seq::new(layout.size(), |i: int| (first + i) as u64),
    decreases layout,
{
    match layout {
        LayoutView::Pane(_) => {
            assert(layout.built(first, limits).panes() =~= Seq::new(
                layout.size(),
                |i: int| (first + i) as u64,
            ));
        },
        LayoutView::Split { start, end, .. } => {
            lemma_built_panes(*start, first, limits);
            lemma_built_panes(*end, first + start.size(), limits);
            assert(layout.built(first, limits).panes() =~= Seq::new(
                layout.size(),
                |i: int| (first + i) as u64,
            ));
        },
    }
}

/// A layout is built with ratios between the limits, whatever was kept.
pub proof fn lemma_built_within_limits(layout: LayoutView, first: nat, limits: RatioLimits)
    requires
        limits.wf(),
    ensures
        layout.built(first, limits).within(limits),
    decreases layout,
{
    match layout {
        LayoutView::Pane(_) => {},
        LayoutView::Split { ratio, start, end, .. } => {
            lemma_clamped_once(limits, ratio);
            lemma_built_within_limits(*start, first, limits);
            lemma_built_within_limits(*end, first + start.size(), limits);
        },
    }
}

/// A layout that was kept and built again has the same splits, orientations and
/// ratios over as many panes.
pub proof fn lemma_snapshot_builds_same_splits(
    node: SplitNode,
    recorded: Seq<u64>,
    directory: Option<Seq<char>>,
    first: nat,
    limits: RatioLimits,
)
    requires
        node.within(limits),
    ensures
        node.layout(recorded, directory).size() == node.panes().len(),
        node.layout(recorded, directory).built(first, limits) == node.renumbered(first),
    decreases node,
{
    match node {
        SplitNode::Leaf { .. } => {},
        SplitNode::Split { left, right, .. } => {
            lemma_snapshot_builds_same_splits(*left, recorded, directory, first, limits);
            lemma_snapshot_builds_same_splits(
                *right,
                recorded,
                directory,
                first + left.panes().len(),
                limits,
            );
        },
    }
}

/// Smallest size of a pane, in pixels.
#[derive(Clone, Copy, Debug, PartialEq, Eq, Structural)]
pub struct MinimumPane {
    pub width: i32,
    pub height: i32,
}

impl MinimumPane {
    pub open spec fn extent(self, orientation: Orientation) -> int {
        match orientation {
            Orientation::Horizontal => self.width as int,
            Orientation::Vertical => self.height as int,
        }
    }
}

/// Size that a child of a split takes at least in the direction of the split.
pub fn minimum_split_extent(minimum: MinimumPane, orientation: Orientation) -> (r: i32)
    ensures
        r == minimum.extent(orientation),
{
    match orientation {
        Orientation::Horizontal => minimum.width,
        Orientation::Vertical => minimum.height,
    }
}

/// Whether two panes fit into `size` pixels.
pub fn split_extent_has_room(size: i32, minimum: MinimumPane, orientation: Orientation) -> (r: bool)
    ensures
        r == (size >= 2 * minimum.extent(orientation)),
{
    size as i64 >= 2 * (minimum_split_extent(minimum, orientation) as i64)
}

/// Whether a pane of this size can be split: it is not laid out yet, or two panes
/// fit into it.
pub open spec fn has_room(
    width: i32,
    height: i32,
    minimum: MinimumPane,
    orientation: Orientation,
) -> bool {
    let size = if orientation == Orientation::Horizontal {
        width
    } else {
        height
    };
    size <= 0 || size >= 2 * minimum.extent(orientation)
}

/// Whether a pane of this size can be split.
pub fn pane_has_room_to_split(
    width: i32,
    height: i32,
    minimum: MinimumPane,
    orientation: Orientation,
) -> (r: bool)
    ensures
        r == has_room(width, height, minimum, orientation),
{
    let size: i32 = match orientation {
        Orientation::Horizontal => width,
        Orientation::Vertical => height,
    };
    size <= 0 || split_extent_has_room(size, minimum, orientation)
}

/// The split layout of one workspace.
///
/// The tree is what counts; the widgets are torn down at a change and built again
/// from the tree at the next idle moment.
#[derive(Debug, PartialEq)]
pub struct SplitTreeContainer {
    pub tree: SplitNode,
    /// A rebuild is due.
    pub rebuild_pending: bool,
    /// The widget that gets the focus after a rebuild.
    pub last_focused: Option<u64>,
    /// The pane that fills the workspace alone.
    pub zoomed_pane: Option<u64>,
}

/// What a rebuild does.
#[derive(Clone, Copy, Debug, PartialEq, Eq, Structural)]
pub enum RebuildAction {
    /// Take the zoomed pane out of its old parent and try again later.
    DetachPane(u64),
    /// Take all panes out of their old parents and try again later.
    DetachPanes,
    /// Show one pane, then move the focus.
    ShowPane { pane: u64, focus: Option<u64> },
    /// Show the whole tree, then move the focus.
    ShowTree { focus: Option<u64> },
}

/// A split that is asked for.
#[derive(Clone, Copy, Debug, PartialEq, Eq, Structural)]
pub struct SplitRequest {
    /// The pane to split, and its size.
    pub target: u64,
    pub width: i32,
    pub height: i32,
    pub new_pane: u64,
    pub orientation: Orientation,
    pub new_pane_first: bool,
    /// Share of the first child that is asked for, as a double-precision pattern.
    pub ratio: u64,
}

impl SplitRequest {
    /// The node that stands in place of the pane after the split.
    pub open spec fn node(self, limits: RatioLimits) -> SplitNode {
        split_of(
            self.target,
            self.new_pane,
            self.orientation,
            self.new_pane_first,
            limits.clamped(self.ratio),
        )
    }

    pub open spec fn fits(self, minimum: MinimumPane) -> bool {
        has_room(self.width, self.height, minimum, self.orientation)
    }
}

impl SplitTreeContainer {
    /// A layout of one pane.
    pub fn new(initial_pane: u64) -> (r: Self)
        ensures
            r == (SplitTreeContainer {
                tree: SplitNode::Leaf { pane: initial_pane },
                rebuild_pending: false,
                last_focused: None,
                zoomed_pane: None,
            }),
    {
        SplitTreeContainer {
            tree: SplitNode::Leaf { pane: initial_pane },
            rebuild_pending: false,
            last_focused: None,
            zoomed_pane: None,
        }
    }

    /// A layout of a given tree.
    pub fn new_from_tree(node: SplitNode) -> (r: Self)
        ensures
            r == (SplitTreeContainer {
                tree: node,
                rebuild_pending: false,
                last_focused: None,
                zoomed_pane: None,
            }),
    {
        SplitTreeContainer {
            tree: node,
            rebuild_pending: false,
            last_focused: None,
            zoomed_pane: None,
        }
    }

    pub fn is_single_pane(&self) -> (r: bool)
        ensures
            r == (self.tree is Leaf),
    {
        self.tree.is_leaf()
    }

    /// Lets one pane fill the workspace, or ends that. `focus` is the widget that
    /// has the focus. Says whether a pane is zoomed now.
    pub fn toggle_zoom(&mut self, target: u64, focus: Option<u64>) -> (r: bool)
        ensures
            r == (old(self).zoomed_pane is None),
            *final(self) == (SplitTreeContainer {
                rebuild_pending: true,
                last_focused: if r {
                    Some(target)
                } else {
                    focus
                },
                zoomed_pane: if r {
                    Some(target)
                } else {
                    None
                },
                ..*old(self)
            }),
            old(self).zoomed_pane is Some <==> final(self).zoomed_pane is None,
            final(self).zoomed_pane matches Some(pane) ==> pane == target,
            final(self).tree == old(self).tree,
    {
        if self.zoomed_pane.is_some() {
            self.last_focused = focus;
            self.zoomed_pane = None;
            self.rebuild_pending = true;
            false
        } else {
            self.zoomed_pane = Some(target);
            self.last_focused = Some(target);
            self.rebuild_pending = true;
            true
        }
    }

    /// Ends the zoom of another pane so that `target` can be seen. Says whether
    /// there was one.
    pub fn reveal_pane(&mut self, target: u64) -> (r: bool)
        ensures
            r == (old(self).zoomed_pane is Some && old(self).zoomed_pane != Some(target)),
            *final(self) == (if r {
                SplitTreeContainer {
                    rebuild_pending: true,
                    last_focused: Some(target),
                    zoomed_pane: None,
                    ..*old(self)
                }
            } else {
                *old(self)
            }),
            final(self).zoomed_pane is None || final(self).zoomed_pane == Some(target),
            final(self).tree == old(self).tree,
    {
        let hidden = match self.zoomed_pane {
            Some(zoomed) => zoomed != target,
            None => false,
        };
        if !hidden {
            return false;
        }
        self.zoomed_pane = None;
        self.last_focused = Some(target);
        self.rebuild_pending = true;
        true
    }

    /// Whether a pane of this size can be split.
    pub fn can_split(
        &self,
        width: i32,
        height: i32,
        minimum: MinimumPane,
        orientation: Orientation,
    ) -> (r: bool)
        ensures
            r == has_room(width, height, minimum, orientation),
    {
        pane_has_room_to_split(width, height, minimum, orientation)
    }

    /// Splits a pane. Without room for two panes nothing happens; otherwise the
    /// zoom ends and the new pane is to get the focus, and the tree changes if
    /// the pane is in it. Says whether it is.
    pub fn split(
        &mut self,
        request: SplitRequest,
        minimum: MinimumPane,
        limits: RatioLimits,
    ) -> (r: bool)
        requires
            limits.wf(),
        ensures
            r == (request.fits(minimum) && old(self).tree.panes().contains(request.target)),
            *final(self) == (if request.fits(minimum) {
                SplitTreeContainer {
                    tree: old(self).tree.replaced(request.target, request.node(limits)),
                    rebuild_pending: old(self).rebuild_pending || r,
                    last_focused: Some(request.new_pane),
                    zoomed_pane: None,
                }
            } else {
                *old(self)
            }),
            request.fits(minimum) && old(self).tree.panes().no_duplicates() ==> forall|
                path: Seq<bool>,
            |
                #[trigger] old(self).tree.at(path) == Some(
                    SplitNode::Leaf { pane: request.target },
                ) ==> split_stands_at(final(self).tree, path, request, limits),
    {
        proof {
            if self.tree.panes().no_duplicates() {
                assert forall|path: Seq<bool>|
                    #[trigger] self.tree.at(path) == Some(
                        SplitNode::Leaf { pane: request.target },
                    ) implies split_stands_at(
                    self.tree.replaced(request.target, request.node(limits)),
                    path,
                    request,
                    limits,
                ) by {
                    lemma_split_as_asked(self.tree, path, request, limits);
                }
            }
        }
        if !pane_has_room_to_split(
            request.width,
            request.height,
            minimum,
            request.orientation,
        ) {
            return false;
        }
        self.zoomed_pane = None;
        self.last_focused = Some(request.new_pane);
        let new_leaf = Box::new(SplitNode::Leaf { pane: request.new_pane });
        let old_leaf = Box::new(SplitNode::Leaf { pane: request.target });
        let ratio: u64 = limits.clamp_split_ratio(request.ratio);
        let node = if request.new_pane_first {
            SplitNode::Split {
                orientation: request.orientation,
                ratio,
                left: new_leaf,
                right: old_leaf,
            }
        } else {
            SplitNode::Split {
                orientation: request.orientation,
                ratio,
                left: old_leaf,
                right: new_leaf,
            }
        };
        let replaced = self.tree.replace(request.target, node);
        if replaced {
            self.rebuild_pending = true;
        }
        replaced
    }

    /// Removes a pane. The zoom ends in any case. Says whether the pane was below
    /// a split, so that its sibling could take the place.
    pub fn remove(&mut self, target: u64, focus: Option<u64>) -> (r: bool)
        ensures
            r == old(self).tree.removable(target),
            *final(self) == (SplitTreeContainer {
                tree: old(self).tree.removed(target),
                rebuild_pending: old(self).rebuild_pending || r,
                last_focused: focus,
                zoomed_pane: None,
            }),
            old(self).tree.panes().no_duplicates() ==> forall|path: Seq<bool>, second: bool|
                #[trigger] old(self).tree.at(path.push(second)) == Some(
                    SplitNode::Leaf { pane: target },
                ) ==> final(self).tree.at(path) == old(self).tree.at(path.push(!second)),
    {
        self.last_focused = focus;
        self.zoomed_pane = None;
        let removed = self.tree.remove(target);
        if removed {
            self.rebuild_pending = true;
        }
        removed
    }

    /// Whether a pane of the tree still has a parent.
    pub open spec fn has_parented_pane(self, parented: Seq<u64>) -> bool {
        exists|i: int|
            0 <= i < self.tree.panes().len() && parented.contains(#[trigger] self.tree.panes()[i])
    }

    /// The rebuild at an idle moment. `parented` lists the panes that still have a
    /// parent: as long as what is to be shown has one, it is detached first and
    /// the rebuild stays due.
    pub fn rebuild(&mut self, parented: &Vec<u64>) -> (r: RebuildAction)
        ensures
            r == (match old(self).zoomed_pane {
                Some(pane) => if parented@.contains(pane) {
                    RebuildAction::DetachPane(pane)
                } else {
                    RebuildAction::ShowPane { pane, focus: old(self).last_focused }
                },
                None => if old(self).has_parented_pane(parented@) {
                    RebuildAction::DetachPanes
                } else {
                    RebuildAction::ShowTree { focus: old(self).last_focused }
                },
            }),
            *final(self) == (SplitTreeContainer {
                rebuild_pending: r is DetachPane || r is DetachPanes,
                ..*old(self)
            }),
            r matches RebuildAction::ShowPane { pane, .. } ==> old(self).zoomed_pane == Some(pane)
                && !parented@.contains(pane),
            r is ShowTree ==> old(self).zoomed_pane is None && forall|pane: u64|
                old(self).tree.panes().contains(pane) ==> !#[trigger] parented@.contains(pane),
            !final(self).rebuild_pending <==> r is ShowPane || r is ShowTree,
    {
        match self.zoomed_pane {
            Some(pane) => {
                if lists(parented, pane) {
                    self.rebuild_pending = true;
                    RebuildAction::DetachPane(pane)
                } else {
                    self.rebuild_pending = false;
                    RebuildAction::ShowPane { pane, focus: self.last_focused }
                }
            },
            None => {
                if tree_has_pane_parents(&self.tree, parented) {
                    self.rebuild_pending = true;
                    RebuildAction::DetachPanes
                } else {
                    assert forall|pane: u64|
                        self.tree.panes().contains(pane) implies !#[trigger] parented@.contains(
                        pane,
                    ) by {
                        let panes = self.tree.panes();
                        let i = choose|i: int| 0 <= i < panes.len() && panes[i] == pane;
                        assert(panes[i] == pane);
                    }
                    self.rebuild_pending = false;
                    RebuildAction::ShowTree { focus: self.last_focused }
                }
            },
        }
    }
}

/// Whether a pane of the tree is among `parented`.
pub fn tree_has_pane_parents(node: &SplitNode, parented: &Vec<u64>) -> (r: bool)
    ensures
        r == exists|i: int|
            0 <= i < node.panes().len() && parented@.contains(#[trigger] node.panes()[i]),
    decreases node,
{
    match node {
        SplitNode::Leaf { pane } => {
            assert(node.panes()[0] == pane);
            lists(parented, *pane)
        },
        SplitNode::Split { left, right, .. } => {
            let ghost a = left.panes();
            let ghost b = right.panes();
            let in_left = tree_has_pane_parents(left, parented);
            let in_right = tree_has_pane_parents(right, parented);
            proof {
                if in_left {
                    let i = choose|i: int| 0 <= i < a.len() && parented@.contains(#[trigger] a[i]);
                    assert(node.panes()[i] == a[i]);
                }
                if in_right {
                    let i = choose|i: int| 0 <= i < b.len() && parented@.contains(#[trigger] b[i]);
                    assert(node.panes()[a.len() + i] == b[i]);
                }
                assert forall|i: int|
                    0 <= i < node.panes().len() && parented@.contains(
                        #[trigger] node.panes()[i],
                    ) implies in_left || in_right by {
                    if i < a.len() {
                        assert(a[i] == node.panes()[i]);
                    } else {
                        assert(b[i - a.len()] == node.panes()[i]);
                    }
                }
            }
            in_left || in_right
        },
    }
}

/// Splitting keeps every pane and adds the new one; removing keeps every other
/// pane. A workspace is never left without panes.
pub proof fn lemma_structural_changes_keep_panes(
    node: SplitNode,
    request: SplitRequest,
    limits: RatioLimits,
    pane: u64,
)
    requires
        node.panes().contains(request.target),
    ensures
        node.replaced(request.target, request.node(limits)).panes().contains(pane) == (
        node.panes().contains(pane) || pane == request.new_pane),
        node.panes().contains(pane) && pane != request.target ==> node.removed(
            request.target,
        ).panes().contains(pane),
        node.removed(request.target).panes().len() > 0,
{
    reveal_with_fuel(SplitNode::panes, 2);
    let split = request.node(limits);
    let i = lemma_replaced_panes(node, request.target, split);
    let before = node.panes().take(i);
    let after = node.panes().skip(i + 1);
    let all = node.panes();
    assert(all =~= before + seq![request.target] + after);
    assert(split.panes() =~= (if request.new_pane_first {
        seq![request.new_pane, request.target]
    } else {
        seq![request.target, request.new_pane]
    }));
    lemma_concat_contains(before + seq![request.target], after, pane);
    lemma_concat_contains(before, seq![request.target], pane);
    lemma_concat_contains(before + split.panes(), after, pane);
    lemma_concat_contains(before, split.panes(), pane);
    lemma_concat_contains(seq![request.target], seq![request.new_pane], pane);
    lemma_concat_contains(seq![request.new_pane], seq![request.target], pane);
    assert(seq![request.target] + seq![request.new_pane] =~= seq![request.target, request.new_pane]);
    assert(seq![request.new_pane] + seq![request.target] =~= seq![request.new_pane, request.target]);
    assert(seq![request.target][0] == request.target);
    assert(seq![request.new_pane][0] == request.new_pane);
    assert(seq![request.target].contains(pane) == (pane == request.target));
    assert(seq![request.new_pane].contains(pane) == (pane == request.new_pane));
    if node is Split {
        let k = lemma_removed_panes(node, request.target);
        lemma_two_panes(node);
        if all.contains(pane) && pane != request.target {
            let j = choose|j: int| 0 <= j < all.len() && all[j] == pane;
            if j < k {
                assert(all.remove(k)[j] == pane);
            } else {
                assert(all.remove(k)[j - 1] == pane);
            }
        }
    } else {
        assert(node.panes()[0] == node->pane);
    }
}

impl SplitNode {
    /// What stands at a path, which leads from the root down, `true` to the second
    /// child.
    pub open spec fn at(self, path: Seq<bool>) -> Option<SplitNode>
        decreases path.len(),
    {
        if path.len() == 0 {
            Some(self)
        } else {
            match self {
                SplitNode::Leaf { .. } => None,
                SplitNode::Split { left, right, .. } => if path[0] {
                    right.at(path.skip(1))
                } else {
                    left.at(path.skip(1))
                },
            }
        }
    }

    /// The tree with something else at a path. Every split on the way keeps its
    /// orientation, its ratio and its other child.
    pub open spec fn planted(self, path: Seq<bool>, node: SplitNode) -> SplitNode
        decreases path.len(),
    {
        if path.len() == 0 {
            node
        } else {
            match self {
                SplitNode::Leaf { .. } => self,
                SplitNode::Split { orientation, ratio, left, right } => if path[0] {
                    SplitNode::Split {
                        orientation,
                        ratio,
                        left,
                        right: Box::new(right.planted(path.skip(1), node)),
                    }
                } else {
                    SplitNode::Split {
                        orientation,
                        ratio,
                        left: Box::new(left.planted(path.skip(1), node)),
                        right,
                    }
                },
            }
        }
    }
}

/// The panes at a path are among those of the tree.
proof fn lemma_panes_at(node: SplitNode, path: Seq<bool>, pane: u64)
    requires
        node.at(path) is Some,
        node.at(path)->0.panes().contains(pane),
    ensures
        node.panes().contains(pane),
    decreases path.len(),
{
    if path.len() > 0 {
        if let SplitNode::Split { left, right, .. } = node {
            lemma_concat_contains(left.panes(), right.panes(), pane);
            if path[0] {
                lemma_panes_at(*right, path.skip(1), pane);
            } else {
                lemma_panes_at(*left, path.skip(1), pane);
            }
        }
    }
}

/// A pane that stands once in a tree stands in one of its halves.
proof fn lemma_once(left: Seq<u64>, right: Seq<u64>, pane: u64)
    requires
        (left + right).no_duplicates(),
    ensures
        left.no_duplicates(),
        right.no_duplicates(),
        !(left.contains(pane) && right.contains(pane)),
{
    let all = left + right;
    assert forall|i: int, j: int| 0 <= i < left.len() && 0 <= j < left.len() && i != j implies left[i]
        != left[j] by {
        assert(all[i] == left[i] && all[j] == left[j]);
    }
    assert forall|i: int, j: int|
        0 <= i < right.len() && 0 <= j < right.len() && i != j implies right[i] != right[j] by {
        assert(all[left.len() + i] == right[i] && all[left.len() + j] == right[j]);
    }
    if left.contains(pane) && right.contains(pane) {
        let i = choose|i: int| 0 <= i < left.len() && left[i] == pane;
        let j = choose|j: int| 0 <= j < right.len() && right[j] == pane;
        assert(all[i] == all[left.len() + j]);
    }
}

/// What takes the place of a pane stands where the pane stood, and nothing else
/// changes.
pub proof fn lemma_replaced_in_place(
    node: SplitNode,
    path: Seq<bool>,
    target: u64,
    replacement: SplitNode,
)
    requires
        node.panes().no_duplicates(),
        node.at(path) == Some(SplitNode::Leaf { pane: target }),
    ensures
        node.replaced(target, replacement) == node.planted(path, replacement),
        node.replaced(target, replacement).at(path) == Some(replacement),
    decreases path.len(),
{
    lemma_leaf_panes(SplitNode::Leaf { pane: target });
    if path.len() > 0 {
        if let SplitNode::Split { left, right, .. } = node {
            lemma_once(left.panes(), right.panes(), target);
            if path[0] {
                lemma_panes_at(*right, path.skip(1), target);
                lemma_replaced_in_place(*right, path.skip(1), target, replacement);
            } else {
                lemma_panes_at(*left, path.skip(1), target);
                lemma_replaced_in_place(*left, path.skip(1), target, replacement);
            }
        }
    }
}

/// Removing a pane leaves its sibling, whatever that is, in place of the split of the
/// two, be the pane its first child or its second. Nothing else changes: every other
/// split keeps its orientation and its ratio.
pub proof fn lemma_sibling_takes_the_place(
    node: SplitNode,
    path: Seq<bool>,
    orientation: Orientation,
    ratio: u64,
    target: u64,
    sibling: SplitNode,
)
    requires
        node.panes().no_duplicates(),
        node.at(path) == Some(
            SplitNode::Split {
                orientation,
                ratio,
                left: Box::new(SplitNode::Leaf { pane: target }),
                right: Box::new(sibling),
            },
        ) || node.at(path) == Some(
            SplitNode::Split {
                orientation,
                ratio,
                left: Box::new(sibling),
                right: Box::new(SplitNode::Leaf { pane: target }),
            },
        ),
    ensures
        node.removable(target),
        node.removed(target) == node.planted(path, sibling),
        node.removed(target).at(path) == Some(sibling),
    decreases path.len(),
{
    let leaf = SplitNode::Leaf { pane: target };
    lemma_leaf_panes(leaf);
    assert(leaf.panes().contains(target));
    let split = node.at(path)->0;
    if let SplitNode::Split { left: a, right: b, .. } = split {
        lemma_concat_contains(a.panes(), b.panes(), target);
        assert(split.panes().contains(target));
        if path.len() == 0 {
            lemma_once(a.panes(), b.panes(), target);
            if *a is Leaf {
                lemma_leaf_panes(*a);
            }
        }
    }
    lemma_panes_at(node, path, target);
    if path.len() > 0 {
        if let SplitNode::Split { left, right, .. } = node {
            lemma_once(left.panes(), right.panes(), target);
            if *left is Leaf {
                lemma_leaf_panes(*left);
            }
            if *right is Leaf {
                lemma_leaf_panes(*right);
            }
            if path[0] {
                lemma_panes_at(*right, path.skip(1), target);
                lemma_sibling_takes_the_place(
                    *right,
                    path.skip(1),
                    orientation,
                    ratio,
                    target,
                    sibling,
                );
            } else {
                lemma_panes_at(*left, path.skip(1), target);
                lemma_sibling_takes_the_place(
                    *left,
                    path.skip(1),
                    orientation,
                    ratio,
                    target,
                    sibling,
                );
            }
        }
    }
}

/// The sibling of a removed pane is left as it was, whichever side the pane was on.
pub proof fn lemma_removed_leaf_leaves_sibling(
    orientation: Orientation,
    ratio: u64,
    target: u64,
    sibling: SplitNode,
)
    requires
        !sibling.panes().contains(target),
    ensures
        (SplitNode::Split {
            orientation,
            ratio,
            left: Box::new(sibling),
            right: Box::new(SplitNode::Leaf { pane: target }),
        }).removed(target) == sibling,
        (SplitNode::Split {
            orientation,
            ratio,
            left: Box::new(SplitNode::Leaf { pane: target }),
            right: Box::new(sibling),
        }).removed(target) == sibling,
{
    if sibling is Leaf {
        lemma_leaf_panes(sibling);
    }
}

/// A pane that is split becomes a split with the orientation that was asked for, in
/// its own place in the tree. The pane and the new one are its children, the new one
/// first exactly if that was asked for, and its ratio is the one that was asked for,
/// moved between the limits. Nothing else changes.
pub proof fn lemma_split_as_asked(
    node: SplitNode,
    path: Seq<bool>,
    request: SplitRequest,
    limits: RatioLimits,
)
    requires
        limits.wf(),
        node.panes().no_duplicates(),
        node.at(path) == Some(SplitNode::Leaf { pane: request.target }),
    ensures
        ({
            let after = node.replaced(request.target, request.node(limits));
            let old_leaf = SplitNode::Leaf { pane: request.target };
            let new_leaf = SplitNode::Leaf { pane: request.new_pane };
            &&& after.at(path) matches Some(split)
            &&& after == node.planted(path, split)
            &&& split matches SplitNode::Split { orientation, ratio, left, right }
            &&& orientation == request.orientation
            &&& ratio == limits.clamped(request.ratio)
            &&& request.new_pane_first ==> *left == new_leaf && *right == old_leaf
            &&& !request.new_pane_first ==> *left == old_leaf && *right == new_leaf
        }),
{
    lemma_replaced_in_place(node, path, request.target, request.node(limits));
}

/// Whether a split that was asked for stands at a path: in the orientation and with
/// the ratio that were asked for, and with the new pane on the side that was.
pub open spec fn split_stands_at(
    tree: SplitNode,
    path: Seq<bool>,
    request: SplitRequest,
    limits: RatioLimits,
) -> bool {
    &&& tree.at(path) matches Some(SplitNode::Split { orientation, ratio, left, right })
    &&& orientation == request.orientation
    &&& ratio == limits.clamped(request.ratio)
    &&& (if request.new_pane_first {
        *left
    } else {
        *right
    }) == (SplitNode::Leaf { pane: request.new_pane })
    &&& (if request.new_pane_first {
        *right
    } else {
        *left
    }) == (SplitNode::Leaf { pane: request.target })
}

proof fn lemma_step_down(node: SplitNode, path: Seq<bool>, second: bool)
    ensures
        node.at(path.push(second)) == (match node.at(path) {
            Some(SplitNode::Split { left, right, .. }) => Some(
                if second {
                    *right
                } else {
                    *left
                },
            ),
            _ => None,
        }),
    decreases path.len(),
{
    reveal_with_fuel(SplitNode::at, 2);
    let longer = path.push(second);
    if path.len() == 0 {
        assert(longer.skip(1) =~= Seq::empty());
    } else {
        assert(longer[0] == path[0]);
        assert(longer.skip(1) =~= path.skip(1).push(second));
        match node {
            SplitNode::Leaf { .. } => {},
            SplitNode::Split { left, right, .. } => {
                lemma_step_down(*left, path.skip(1), second);
                lemma_step_down(*right, path.skip(1), second);
            },
        }
    }
}

/// Where a pane was removed, its sibling is found in place of the split of the two.
pub proof fn lemma_sibling_found(node: SplitNode, path: Seq<bool>, second: bool, target: u64)
    requires
        node.panes().no_duplicates(),
        node.at(path.push(second)) == Some(SplitNode::Leaf { pane: target }),
    ensures
        node.removed(target).at(path) == node.at(path.push(!second)),
        node.at(path.push(!second)) is Some,
{
    lemma_step_down(node, path, second);
    lemma_step_down(node, path, !second);
    match node.at(path) {
        Some(SplitNode::Split { orientation, ratio, left, right }) => {
            let sibling = if second {
                *left
            } else {
                *right
            };
            lemma_sibling_takes_the_place(node, path, orientation, ratio, target, sibling);
        },
        _ => {},
    }
}

/// Setting the ratio of a split changes that ratio alone. A path that leads to no
/// split changes nothing.
pub proof fn lemma_ratio_in_place(node: SplitNode, path: Seq<bool>, ratio: u64)
    ensures
        node.at(path) matches Some(SplitNode::Split { orientation, left, right, .. })
            ==> node.with_ratio(path, ratio) == node.planted(
            path,
            SplitNode::Split { orientation, ratio, left, right },
        ),
        !(node.at(path) matches Some(found) && found is Split) ==> node.with_ratio(path, ratio)
            == node,
    decreases path.len(),
{
    if path.len() > 0 {
        if let SplitNode::Split { left, right, .. } = node {
            if path[0] {
                lemma_ratio_in_place(*right, path.skip(1), ratio);
            } else {
                lemma_ratio_in_place(*left, path.skip(1), ratio);
            }
        }
    }
}

/// A ratio is moved no further than it has to be: one between the limits stays, one
/// below them becomes the lower, one above them the upper.
pub proof fn lemma_clamped(limits: RatioLimits, ratio: u64)
    requires
        limits.wf(),
        !double_is_nan(ratio),
    ensures
        double_rank(limits.least) <= double_rank(limits.clamped(ratio)) <= double_rank(
            limits.most,
        ),
        double_rank(limits.least) <= double_rank(ratio) <= double_rank(limits.most)
            ==> limits.clamped(ratio) == ratio,
        double_rank(ratio) < double_rank(limits.least) ==> limits.clamped(ratio) == limits.least,
        double_rank(ratio) > double_rank(limits.most) ==> limits.clamped(ratio) == limits.most,
{
}

/// A pane with a size can be split exactly if two panes of the smallest size fit next
/// to each other along the split; its size across it does not matter. A pane without
/// a size can always be split.
pub proof fn lemma_room(width: i32, height: i32, other: i32, minimum: MinimumPane)
    requires
        minimum.width > 0,
        minimum.height > 0,
    ensures
        width > 0 ==> (has_room(width, height, minimum, Orientation::Horizontal) <==> width
            - minimum.width >= minimum.width),
        height > 0 ==> (has_room(width, height, minimum, Orientation::Vertical) <==> height
            - minimum.height >= minimum.height),
        width <= 0 ==> has_room(width, height, minimum, Orientation::Horizontal),
        height <= 0 ==> has_room(width, height, minimum, Orientation::Vertical),
        has_room(width, height, minimum, Orientation::Horizontal) == has_room(
            width,
            other,
            minimum,
            Orientation::Horizontal,
        ),
        has_room(width, height, minimum, Orientation::Vertical) == has_room(
            other,
            height,
            minimum,
            Orientation::Vertical,
        ),
{
}

/// What is kept of a tree has its splits, with their orientations, ratios and sides:
/// at every path the layout has what the tree has there. A pane is kept by its own
/// number where something was recorded of it.
pub proof fn lemma_layout_follows_tree(
    node: SplitNode,
    recorded: Seq<u64>,
    directory: Option<Seq<char>>,
    path: Seq<bool>,
)
    ensures
        node.at(path) is Some <==> node.layout(recorded, directory).at(path) is Some,
        node.at(path) matches Some(SplitNode::Split { orientation, ratio, .. }) ==> (
        node.layout(recorded, directory).at(path) matches Some(
            LayoutView::Split { orientation: kept, ratio: kept_ratio, .. },
        ) && kept == orientation && kept_ratio == ratio),
        node.at(path) matches Some(SplitNode::Leaf { pane }) ==> node.layout(recorded, directory).at(
            path,
        ) == Some(
            LayoutView::Pane(
                if recorded.contains(pane) {
                    PaneStateView::Recorded(pane)
                } else {
                    PaneStateView::Fallback(directory)
                },
            ),
        ),
    decreases path.len(),
{
    if path.len() > 0 {
        if let SplitNode::Split { left, right, .. } = node {
            if path[0] {
                lemma_layout_follows_tree(*right, recorded, directory, path.skip(1));
            } else {
                lemma_layout_follows_tree(*left, recorded, directory, path.skip(1));
            }
        }
    }
}

impl LayoutView {
    /// What stands at a path.
    pub open spec fn at(self, path: Seq<bool>) -> Option<LayoutView>
        decreases path.len(),
    {
        if path.len() == 0 {
            Some(self)
        } else {
            match self {
                LayoutView::Pane(_) => None,
                LayoutView::Split { start, end, .. } => if path[0] {
                    end.at(path.skip(1))
                } else {
                    start.at(path.skip(1))
                },
            }
        }
    }
}

/// The tree built of a layout has what the layout has at every path: its splits with
/// their orientations and, between the limits, their ratios, and a pane where the
/// layout has one.
pub proof fn lemma_built_follows_layout(
    layout: LayoutView,
    first: nat,
    limits: RatioLimits,
    path: Seq<bool>,
)
    ensures
        layout.at(path) is Some <==> layout.built(first, limits).at(path) is Some,
        layout.at(path) matches Some(LayoutView::Split { orientation, ratio, .. }) ==> (
        layout.built(first, limits).at(path) matches Some(
            SplitNode::Split { orientation: built, ratio: built_ratio, .. },
        ) && built == orientation && built_ratio == limits.clamped(ratio)),
        layout.at(path) matches Some(found) && found is Pane ==> (layout.built(first, limits).at(
            path,
        ) matches Some(built) && built is Leaf),
    decreases path.len(),
{
    if path.len() > 0 {
        if let LayoutView::Split { start, end, .. } = layout {
            if path[0] {
                lemma_built_follows_layout(*end, first + start.size(), limits, path.skip(1));
            } else {
                lemma_built_follows_layout(*start, first, limits, path.skip(1));
            }
        }
    }
}

/// Splitting, removing and dragging keep every ratio between the limits.
pub proof fn lemma_changes_keep_limits(
    node: SplitNode,
    request: SplitRequest,
    path: Seq<bool>,
    ratio: u64,
    limits: RatioLimits,
)
    requires
        limits.wf(),
        node.within(limits),
    ensures
        node.replaced(request.target, request.node(limits)).within(limits),
        node.removed(request.target).within(limits),
        node.with_ratio(path, limits.clamped(ratio)).within(limits),
    decreases node,
{
    reveal_with_fuel(SplitNode::within, 3);
    lemma_clamped_once(limits, request.ratio);
    lemma_clamped_once(limits, ratio);
    match node {
        SplitNode::Leaf { .. } => {},
        SplitNode::Split { left, right, .. } => {
            lemma_changes_keep_limits(*left, request, path.skip(1), ratio, limits);
            lemma_changes_keep_limits(*right, request, path.skip(1), ratio, limits);
        },
    }
}

/// A tree has panes, a split at least two.
proof fn lemma_two_panes(node: SplitNode)
    ensures
        node.panes().len() >= 1,
        node is Split ==> node.panes().len() >= 2,
    decreases node,
{
    match node {
        SplitNode::Leaf { .. } => {},
        SplitNode::Split { left, right, .. } => {
            lemma_two_panes(*left);
            lemma_two_panes(*right);
        },
    }
}

/// The parent of a pane widget.
#[derive(Clone, Copy, Debug, PartialEq, Eq, Structural)]
pub enum PaneParent {
    Orphan,
    /// A split, with its first child.
    Paned { start_child: Option<u64> },
    Box,
    Other,
}

/// How a pane is taken out of its parent.
#[derive(Clone, Copy, Debug, PartialEq, Eq, Structural)]
pub enum Detachment {
    Nothing,
    ClearStart,
    ClearEnd,
    RemoveFromBox,
}

/// How a pane of the tree is taken out of the split that it was shown in.
pub fn detach_pane_from_old_tree(pane: u64, parent: PaneParent) -> (r: Detachment)
    ensures
        r == (match parent {
            PaneParent::Paned { start_child } => if start_child == Some(pane) {
                Detachment::ClearStart
            } else {
                Detachment::ClearEnd
            },
            _ => Detachment::Nothing,
        }),
{
    match parent {
        PaneParent::Paned { start_child: Some(child) } => if child == pane {
            Detachment::ClearStart
        } else {
            Detachment::ClearEnd
        },
        PaneParent::Paned { start_child: None } => Detachment::ClearEnd,
        _ => Detachment::Nothing,
    }
}

/// How the zoomed pane is taken out of its parent, which may also be the box that
/// showed it alone.
pub fn detach_pane_from_old_parent(pane: u64, parent: PaneParent) -> (r: Detachment)
    ensures
        r == (match parent {
            PaneParent::Paned { start_child } => if start_child == Some(pane) {
                Detachment::ClearStart
            } else {
                Detachment::ClearEnd
            },
            PaneParent::Box => Detachment::RemoveFromBox,
            _ => Detachment::Nothing,
        }),
{
    match parent {
        PaneParent::Box => Detachment::RemoveFromBox,
        _ => detach_pane_from_old_tree(pane, parent),
    }
}

/// A divider is seen where the widget shows it, whoever moved it. The ratio that is
/// kept follows a drag, by what the tree makes of the place, and stays as it was while
/// the divider is being placed.
pub proof fn lemma_only_drags_are_kept(
    divider: SplitDivider,
    in_tree: u64,
    on_screen: u64,
    limits: RatioLimits,
)
    ensures
        ({
            let after = divider.moved(in_tree, on_screen, limits);
            &&& after.shown == limits.clamped(on_screen)
            &&& divider.applying ==> after.ratio == divider.ratio
            &&& !divider.applying ==> after.ratio == limits.clamped(in_tree)
            &&& after.applying == divider.applying
        }),
{
}

} // verus!
