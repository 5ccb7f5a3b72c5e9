use limux_host::split_tree::{
    build_split_node_from_layout, detach_pane_from_old_parent, detach_pane_from_old_tree,
    extent_along, lists,
    minimum_split_extent, pane_has_room_to_split, split_extent_has_room, tree_has_pane_parents,
    Detachment, LayoutNodeState, MinimumPane, Orientation, PaneParent, PaneState, RatioLimits, RebuildAction,
    SplitDivider, SplitNode, SplitRequest, SplitTreeContainer,
};

const MINIMUM: MinimumPane = MinimumPane {
    width: 240,
    height: 120,
};

/// 0.1 to 0.9.
const LIMITS: RatioLimits = RatioLimits {
    least: 0x3FB9_9999_9999_999A,
    most: 0x3FEC_CCCC_CCCC_CCCD,
};

fn leaf(pane: u64) -> SplitNode {
    SplitNode::Leaf { pane }
}

fn split(orientation: Orientation, ratio: f64, left: SplitNode, right: SplitNode) -> SplitNode {
    SplitNode::Split {
        orientation,
        ratio: ratio.to_bits(),
        left: Box::new(left),
        right: Box::new(right),
    }
}

fn panes(node: &SplitNode) -> Vec<u64> {
    match node {
        SplitNode::Leaf { pane } => vec![*pane],
        SplitNode::Split { left, right, .. } => {
            let mut all = panes(left);
            all.extend(panes(right));
            all
        }
    }
}

fn request(target: u64, new_pane: u64, first: bool) -> SplitRequest {
    SplitRequest {
        target,
        width: 800,
        height: 600,
        new_pane,
        orientation: Orientation::Horizontal,
        new_pane_first: first,
        ratio: 0.5f64.to_bits(),
    }
}

#[test]
fn split_extent_requires_room_for_both_children() {
    assert!(!split_extent_has_room(
        MINIMUM.width * 2 - 1,
        MINIMUM,
        Orientation::Horizontal
    ));
    assert!(split_extent_has_room(
        MINIMUM.width * 2,
        MINIMUM,
        Orientation::Horizontal
    ));
    assert!(!split_extent_has_room(
        MINIMUM.height * 2 - 1,
        MINIMUM,
        Orientation::Vertical
    ));
    assert!(split_extent_has_room(
        MINIMUM.height * 2,
        MINIMUM,
        Orientation::Vertical
    ));
}

#[test]
fn a_pane_without_a_size_can_be_split() {
    assert!(pane_has_room_to_split(0, 50, MINIMUM, Orientation::Horizontal));
    assert!(pane_has_room_to_split(-1, 50, MINIMUM, Orientation::Horizontal));
    assert!(!pane_has_room_to_split(0, 50, MINIMUM, Orientation::Vertical));
    assert_eq!(minimum_split_extent(MINIMUM, Orientation::Vertical), 120);
}

#[test]
fn replace_finds_the_first_leaf() {
    let mut tree = split(Orientation::Vertical, 0.5, leaf(1), split(Orientation::Horizontal, 0.3, leaf(2), leaf(3)));
    assert!(tree.replace(2, split(Orientation::Vertical, 0.5, leaf(2), leaf(9))));
    assert_eq!(panes(&tree), vec![1, 2, 9, 3]);
    assert!(!tree.replace(77, leaf(78)));
    assert_eq!(panes(&tree), vec![1, 2, 9, 3]);
}

#[test]
fn remove_promotes_the_sibling() {
    let inner = split(Orientation::Horizontal, 0.3, leaf(2), leaf(3));
    let mut tree = split(Orientation::Vertical, 0.5, leaf(1), inner);
    assert!(tree.remove(1));
    assert_eq!(tree, split(Orientation::Horizontal, 0.3, leaf(2), leaf(3)));
    assert!(tree.remove(3));
    assert_eq!(tree, leaf(2));
    assert!(!tree.remove(2));
    assert!(tree.is_leaf());
    assert!(tree.contains_pane(2));
}

#[test]
fn removing_a_new_pane_undoes_the_split() {
    for first in [true, false] {
        let mut container = SplitTreeContainer::new_from_tree(split(
            Orientation::Vertical,
            0.4,
            leaf(1),
            leaf(2),
        ));
        assert!(container.split(request(2, 3, first), MINIMUM, LIMITS));
        assert_eq!(
            panes(&container.tree),
            if first { vec![1, 3, 2] } else { vec![1, 2, 3] }
        );
        assert_eq!(container.last_focused, Some(3));
        assert!(container.rebuild_pending);
        assert!(container.remove(3, Some(2)));
        assert_eq!(container.tree, split(Orientation::Vertical, 0.4, leaf(1), leaf(2)));
        assert_eq!(container.last_focused, Some(2));
    }
}

#[test]
fn a_split_without_room_changes_nothing() {
    let mut container = SplitTreeContainer::new(1);
    container.toggle_zoom(1, None);
    let mut narrow = request(1, 2, false);
    narrow.width = 479;
    assert!(!container.split(narrow, MINIMUM, LIMITS));
    assert_eq!(container.tree, leaf(1));
    assert_eq!(container.zoomed_pane, Some(1));
    assert!(!container.can_split(479, 600, MINIMUM, Orientation::Horizontal));

    assert!(!container.split(request(5, 2, false), MINIMUM, LIMITS));
    assert_eq!(container.tree, leaf(1));
    assert_eq!(container.zoomed_pane, None);
    assert_eq!(container.last_focused, Some(2));
}

#[test]
fn zoom_hides_and_reveals() {
    let mut container =
        SplitTreeContainer::new_from_tree(split(Orientation::Vertical, 0.4, leaf(1), leaf(2)));
    assert!(!container.is_single_pane());
    assert!(container.toggle_zoom(1, Some(100)));
    assert_eq!(container.zoomed_pane, Some(1));
    assert_eq!(container.last_focused, Some(1));
    assert!(!container.reveal_pane(1));
    assert!(container.reveal_pane(2));
    assert_eq!(container.zoomed_pane, None);
    assert_eq!(container.last_focused, Some(2));
    assert!(container.toggle_zoom(2, Some(100)));
    assert!(!container.toggle_zoom(1, Some(100)));
    assert_eq!(container.last_focused, Some(100));
}

#[test]
fn a_rebuild_waits_until_panes_are_free() {
    let mut container =
        SplitTreeContainer::new_from_tree(split(Orientation::Vertical, 0.4, leaf(1), leaf(2)));
    container.toggle_zoom(2, None);
    assert_eq!(container.rebuild(&vec![1, 2]), RebuildAction::DetachPane(2));
    assert!(container.rebuild_pending);
    assert_eq!(
        container.rebuild(&vec![1]),
        RebuildAction::ShowPane {
            pane: 2,
            focus: Some(2)
        }
    );
    assert!(!container.rebuild_pending);
    container.toggle_zoom(2, None);
    assert_eq!(container.rebuild(&vec![1]), RebuildAction::DetachPanes);
    assert_eq!(container.rebuild(&vec![7]), RebuildAction::ShowTree { focus: None });
    assert!(tree_has_pane_parents(&container.tree, &vec![2]));
    assert!(lists(&vec![4, 5], 5));
}

#[test]
fn panes_leave_their_old_parents() {
    let paned = |start| PaneParent::Paned { start_child: start };
    assert_eq!(detach_pane_from_old_tree(3, paned(Some(3))), Detachment::ClearStart);
    assert_eq!(detach_pane_from_old_tree(3, paned(Some(4))), Detachment::ClearEnd);
    assert_eq!(detach_pane_from_old_tree(3, paned(None)), Detachment::ClearEnd);
    assert_eq!(detach_pane_from_old_tree(3, PaneParent::Box), Detachment::Nothing);
    assert_eq!(detach_pane_from_old_parent(3, PaneParent::Box), Detachment::RemoveFromBox);
    assert_eq!(detach_pane_from_old_parent(3, paned(Some(3))), Detachment::ClearStart);
    assert_eq!(detach_pane_from_old_parent(3, PaneParent::Orphan), Detachment::Nothing);
}

#[test]
fn dragging_a_divider_sets_one_ratio() {
    let mut tree = split(Orientation::Vertical, 0.5, leaf(1), split(Orientation::Horizontal, 0.3, leaf(2), leaf(3)));
    tree.set_ratio(&vec![true], 0.7f64.to_bits(), LIMITS);
    assert_eq!(
        tree,
        split(Orientation::Vertical, 0.5, leaf(1), split(Orientation::Horizontal, 0.7, leaf(2), leaf(3)))
    );
    tree.set_ratio(&vec![], 0.2f64.to_bits(), LIMITS);
    tree.set_ratio(&vec![false], 0.9f64.to_bits(), LIMITS);
    assert_eq!(
        tree,
        split(Orientation::Vertical, 0.2, leaf(1), split(Orientation::Horizontal, 0.7, leaf(2), leaf(3)))
    );
}

#[test]
fn a_kept_layout_has_the_same_splits() {
    let tree = split(Orientation::Vertical, 0.25, leaf(7), split(Orientation::Horizontal, 0.3, leaf(9), leaf(4)));
    let layout = tree.snapshot(&vec![9], Some("/work"));
    assert_eq!(
        layout,
        LayoutNodeState::Split {
            orientation: Orientation::Vertical,
            ratio: 0.25f64.to_bits(),
            start: Box::new(LayoutNodeState::Pane(PaneState::Fallback(Some("/work".to_string())))),
            end: Box::new(LayoutNodeState::Split {
                orientation: Orientation::Horizontal,
                ratio: 0.3f64.to_bits(),
                start: Box::new(LayoutNodeState::Pane(PaneState::Recorded(9))),
                end: Box::new(LayoutNodeState::Pane(PaneState::Fallback(Some("/work".to_string())))),
            }),
        }
    );
    let (built, next) = build_split_node_from_layout(&layout, 20, LIMITS);
    assert_eq!(next, 23);
    assert_eq!(
        built,
        split(Orientation::Vertical, 0.25, leaf(20), split(Orientation::Horizontal, 0.3, leaf(21), leaf(22)))
    );
}

#[test]
fn only_a_drag_changes_the_ratio_that_is_kept() {
    let ratio = |x: f64| x.to_bits();
    let mut divider = SplitDivider::new(ratio(0.3), ratio(0.5), LIMITS);
    assert_eq!(divider.shown, ratio(0.5));
    assert_eq!(divider.begin_apply_ratio(ratio(0.3), 0, LIMITS), None);
    assert_eq!(divider.begin_apply_ratio(ratio(0.3), 800, LIMITS), Some(ratio(0.3)));
    divider.position_notify(ratio(0.9), ratio(0.9), LIMITS);
    divider.position_notify(ratio(0.1), ratio(0.1), LIMITS);
    divider.end_apply_ratio(ratio(0.3), LIMITS);
    assert_eq!(
        divider,
        SplitDivider { ratio: ratio(0.3), shown: ratio(0.3), applying: false }
    );
    divider.position_notify(ratio(0.7), ratio(0.7), LIMITS);
    assert_eq!(divider.ratio, ratio(0.7));
    divider.position_notify(ratio(0.99), ratio(-1.0), LIMITS);
    assert_eq!((divider.ratio, divider.shown), (ratio(0.9), ratio(0.1)));
    assert_eq!(extent_along(Orientation::Horizontal, 4, 3), 4);
    assert_eq!(extent_along(Orientation::Vertical, 4, 3), 3);
}

#[test]
fn ratios_stay_between_the_limits() {
    for (asked, kept) in [
        (0.5, 0.5),
        (0.0, 0.1),
        (-0.0, 0.1),
        (1.0, 0.9),
        (f64::INFINITY, 0.9),
        (f64::NEG_INFINITY, 0.1),
    ] {
        assert_eq!(f64::from_bits(LIMITS.clamp_split_ratio(f64::to_bits(asked))), kept);
        assert_eq!(asked.clamp(0.1, 0.9), kept);
        let mut asks = request(1, 2, false);
        asks.ratio = asked.to_bits();
        let mut container = SplitTreeContainer::new(1);
        assert!(container.split(asks, MINIMUM, LIMITS));
        assert_eq!(
            container.tree,
            split(Orientation::Horizontal, kept, leaf(1), leaf(2))
        );
        let layout = LayoutNodeState::Split {
            orientation: Orientation::Vertical,
            ratio: asked.to_bits(),
            start: Box::new(LayoutNodeState::Pane(PaneState::Fallback(None))),
            end: Box::new(LayoutNodeState::Pane(PaneState::Fallback(None))),
        };
        let (built, _) = build_split_node_from_layout(&layout, 1, LIMITS);
        assert_eq!(built, split(Orientation::Vertical, kept, leaf(1), leaf(2)));
    }
    assert!(f64::from_bits(LIMITS.clamp_split_ratio(f64::NAN.to_bits())).is_nan());
}
