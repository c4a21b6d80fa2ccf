use kzero::tree_view::{
    find_row, fit_offset, RenderNode, TreeView, ViewError, ViewEvent, ViewNode,
};

fn leaf(parent: usize, visits: u64, policy_key: u32) -> ViewNode {
    ViewNode { parent: Some(parent), first_child: 0, child_count: 0, visits, policy_key }
}

fn inner(parent: Option<usize>, first_child: usize, child_count: usize, visits: u64) -> ViewNode {
    ViewNode { parent, first_child, child_count, visits, policy_key: 0 }
}

// 0
// +- 1 (3 visits)
// +- 2 (9 visits)
// |  +- 4 (1 visit, prior 5)
// |  +- 5 (1 visit, prior 8)
// |  +- 6 (1 visit, prior 5)
// +- 3 (9 visits, smaller prior than 2)
fn tree() -> Vec<ViewNode> {
    vec![
        inner(None, 1, 3, 21),
        leaf(0, 3, 100),
        ViewNode { parent: Some(0), first_child: 4, child_count: 3, visits: 9, policy_key: 50 },
        leaf(0, 9, 40),
        leaf(2, 1, 5),
        leaf(2, 1, 8),
        leaf(2, 1, 5),
    ]
}

fn row(node: usize, depth: usize) -> RenderNode {
    RenderNode { node, depth }
}

fn nodes_of(view: &TreeView) -> Vec<usize> {
    view.rows().iter().map(|r| r.node).collect()
}

#[test]
fn children_are_shown_most_visited_first() {
    let view = TreeView::new(tree()).unwrap();
    assert_eq!(view.rows(), &vec![row(0, 0), row(2, 1), row(3, 1), row(1, 1)]);
    assert_eq!(view.selected_node(), 0);
    assert_eq!(view.view_offset(), 0);
    assert_eq!(view.is_expanded(0), Some(true));
    assert_eq!(view.is_expanded(2), Some(false));
    assert_eq!(view.is_expanded(7), None);
}

#[test]
fn equal_visits_are_ordered_by_prior_then_by_number() {
    let mut view = TreeView::new(tree()).unwrap();
    view.handle_event(ViewEvent::Down).unwrap();
    view.handle_event(ViewEvent::Right).unwrap();
    view.prepare_render(40).unwrap();
    assert_eq!(
        view.rows(),
        &vec![row(0, 0), row(2, 1), row(5, 2), row(4, 2), row(6, 2), row(3, 1), row(1, 1)]
    );
    view.handle_event(ViewEvent::Left).unwrap();
    view.handle_event(ViewEvent::Left).unwrap();
    view.prepare_render(40).unwrap();
    assert_eq!(view.rows(), &vec![row(0, 0)]);
}

#[test]
fn what_is_no_tree_is_refused() {
    assert!(TreeView::new(vec![]).is_none());
    assert!(TreeView::new(vec![inner(None, 0, 1, 1)]).is_none());
    assert!(TreeView::new(vec![inner(None, 1, 1, 1)]).is_none());
    assert!(TreeView::new(vec![inner(None, 1, 2, 1), leaf(0, 1, 1)]).is_none());
    assert!(TreeView::new(vec![inner(None, 1, usize::MAX, 1), leaf(0, 1, 1)]).is_none());
    assert!(TreeView::new(vec![inner(None, 1, 1, 1), leaf(2, 1, 1)]).is_none());
    assert!(TreeView::new(vec![inner(None, 1, 1, 1), leaf(0, 1, 1)]).is_some());
    assert!(TreeView::new(vec![inner(None, 5, 0, 1)]).is_some());
}

#[test]
fn rows_are_found_by_their_node() {
    let rows = vec![row(0, 0), row(2, 1), row(3, 1), row(2, 1)];
    assert_eq!(find_row(&rows, 0), Some(0));
    assert_eq!(find_row(&rows, 2), Some(1));
    assert_eq!(find_row(&rows, 3), Some(2));
    assert_eq!(find_row(&rows, 1), None);
    assert_eq!(find_row(&vec![], 0), None);
}

#[test]
fn up_and_down_move_along_the_rows() {
    let mut view = TreeView::new(tree()).unwrap();
    assert_eq!(view.handle_event(ViewEvent::Up), Ok(()));
    assert_eq!(view.selected_node(), 0);
    assert_eq!(view.handle_event(ViewEvent::Down), Ok(()));
    assert_eq!(view.selected_node(), 2);
    view.handle_event(ViewEvent::Down).unwrap();
    assert_eq!(view.selected_node(), 3);
    view.handle_event(ViewEvent::Down).unwrap();
    assert_eq!(view.selected_node(), 1);
    view.handle_event(ViewEvent::Down).unwrap();
    assert_eq!(view.selected_node(), 1);
    view.handle_event(ViewEvent::Up).unwrap();
    assert_eq!(view.selected_node(), 3);
    assert_eq!(view.selected_index(), Some(2));
}

#[test]
fn right_expands_then_steps_into_the_best_child() {
    let mut view = TreeView::new(tree()).unwrap();
    view.handle_event(ViewEvent::Down).unwrap();
    assert_eq!(view.selected_node(), 2);
    view.handle_event(ViewEvent::Right).unwrap();
    assert_eq!(view.selected_node(), 2);
    assert_eq!(view.is_expanded(2), Some(true));
    // The rows are laid out at the next rendering only.
    assert_eq!(nodes_of(&view), vec![0, 2, 3, 1]);
    view.prepare_render(40).unwrap();
    assert_eq!(nodes_of(&view), vec![0, 2, 5, 4, 6, 3, 1]);
    view.handle_event(ViewEvent::Right).unwrap();
    assert_eq!(view.selected_node(), 5);
    assert_eq!(view.is_expanded(5), Some(true));
    view.handle_event(ViewEvent::Right).unwrap();
    assert_eq!(view.selected_node(), 5);
}

#[test]
fn left_collapses_then_steps_out_to_the_parent() {
    let mut view = TreeView::new(tree()).unwrap();
    view.handle_event(ViewEvent::Down).unwrap();
    view.handle_event(ViewEvent::Right).unwrap();
    view.handle_event(ViewEvent::Left).unwrap();
    assert_eq!(view.selected_node(), 2);
    assert_eq!(view.is_expanded(2), Some(false));
    view.handle_event(ViewEvent::Left).unwrap();
    assert_eq!(view.selected_node(), 0);
    assert_eq!(view.is_expanded(0), Some(false));
    view.handle_event(ViewEvent::Left).unwrap();
    assert_eq!(view.selected_node(), 0);
    view.prepare_render(40).unwrap();
    assert_eq!(nodes_of(&view), vec![0]);
}

#[test]
fn a_click_selects_the_row_under_it() {
    let mut view = TreeView::new(tree()).unwrap();
    // Window at screen row 2, two header rows: the first node is on screen row 4.
    view.handle_event(ViewEvent::Click { row: 6, area_y: 2 }).unwrap();
    assert_eq!(view.selected_node(), 3);
    view.handle_event(ViewEvent::Click { row: 4, area_y: 2 }).unwrap();
    assert_eq!(view.selected_node(), 0);
    view.handle_event(ViewEvent::Click { row: 3, area_y: 2 }).unwrap();
    assert_eq!(view.selected_node(), 0);
    view.handle_event(ViewEvent::Click { row: 7, area_y: 2 }).unwrap();
    assert_eq!(view.selected_node(), 1);
    view.handle_event(ViewEvent::Click { row: 8, area_y: 2 }).unwrap();
    assert_eq!(view.selected_node(), 1);
    view.handle_event(ViewEvent::Click { row: 0, area_y: 2 }).unwrap();
    assert_eq!(view.selected_node(), 1);
    view.handle_event(ViewEvent::Other).unwrap();
    assert_eq!(view.selected_node(), 1);
}

#[test]
fn the_offset_moves_as_little_as_needed() {
    // A window of 12 rows shows 10 nodes and keeps a margin of 3.
    assert_eq!(fit_offset(0, 0, 12), Some(0));
    assert_eq!(fit_offset(0, 6, 12), Some(0));
    assert_eq!(fit_offset(0, 7, 12), Some(0));
    assert_eq!(fit_offset(0, 8, 12), Some(1));
    assert_eq!(fit_offset(0, 20, 12), Some(13));
    assert_eq!(fit_offset(13, 20, 12), Some(13));
    assert_eq!(fit_offset(17, 20, 12), Some(17));
    assert_eq!(fit_offset(18, 20, 12), Some(17));
    assert_eq!(fit_offset(50, 20, 12), Some(17));
    assert_eq!(fit_offset(5, 2, 12), Some(0));
    assert_eq!(fit_offset(5, 3, 12), Some(0));
    assert_eq!(fit_offset(5, 4, 12), Some(1));
}

#[test]
fn low_windows_have_a_smaller_margin_or_none_at_all() {
    assert_eq!(fit_offset(0, 5, 0), None);
    assert_eq!(fit_offset(0, 5, 1), None);
    assert_eq!(fit_offset(0, 5, 3), None);
    assert_eq!(fit_offset(0, 5, 7), None);
    assert_eq!(fit_offset(0, 5, 2), Some(5));
    assert_eq!(fit_offset(9, 5, 2), Some(5));
    assert_eq!(fit_offset(0, 5, 4), Some(4));
    assert_eq!(fit_offset(9, 5, 4), Some(4));
    assert_eq!(fit_offset(0, 5, 6), Some(3));
    assert_eq!(fit_offset(0, 5, 8), Some(2));
    assert_eq!(fit_offset(0, 0, 3), Some(0));
    assert_eq!(fit_offset(4, 0, 7), Some(0));
    assert_eq!(fit_offset(0, 2, 7), Some(0));
    assert_eq!(fit_offset(0, 3, 7), None);
}

#[test]
fn rendering_scrolls_to_the_selected_row() {
    let mut nodes = vec![inner(None, 1, 30, 100)];
    for k in 0..30 {
        nodes.push(leaf(0, 100 - k, 0));
    }
    let mut view = TreeView::new(nodes).unwrap();
    for _ in 0..20 {
        view.handle_event(ViewEvent::Down).unwrap();
    }
    assert_eq!(view.selected_node(), 20);
    assert_eq!(view.prepare_render(12), Ok(()));
    assert_eq!(view.view_offset(), 13);
    assert_eq!(view.row_at(0), Some(row(13, 1)));
    assert_eq!(view.row_at(7), Some(row(20, 1)));
    assert_eq!(view.row_at(17), Some(row(30, 1)));
    assert_eq!(view.row_at(18), None);
    assert_eq!(view.row_at(u16::MAX), None);
    assert_eq!(view.prepare_render(7), Err(ViewError::WindowTooLow));
    assert_eq!(view.view_offset(), 13);
}

#[test]
fn without_its_row_the_selection_does_not_move() {
    let mut view = TreeView::new(tree()).unwrap();
    view.handle_event(ViewEvent::Down).unwrap();
    view.handle_event(ViewEvent::Right).unwrap();
    view.prepare_render(40).unwrap();
    view.handle_event(ViewEvent::Right).unwrap();
    assert_eq!(view.selected_node(), 5);
    // Node 5 is shown. Collapse the root by hand: select it with a click, collapse, go back.
    view.handle_event(ViewEvent::Click { row: 2, area_y: 0 }).unwrap();
    assert_eq!(view.selected_node(), 0);
    view.handle_event(ViewEvent::Left).unwrap();
    view.handle_event(ViewEvent::Click { row: 4, area_y: 0 }).unwrap();
    assert_eq!(view.selected_node(), 5);
    assert_eq!(view.prepare_render(40), Err(ViewError::SelectionNotShown));
    assert_eq!(nodes_of(&view), vec![0]);
    assert_eq!(view.selected_index(), None);
    assert_eq!(view.handle_event(ViewEvent::Up), Err(ViewError::SelectionNotShown));
    assert_eq!(view.handle_event(ViewEvent::Down), Err(ViewError::SelectionNotShown));
    assert_eq!(view.selected_node(), 5);
}

#[test]
fn a_grown_tree_keeps_what_was_expanded() {
    let mut view = TreeView::new(vec![inner(None, 5, 0, 1)]).unwrap();
    assert_eq!(nodes_of(&view), vec![0]);
    assert!(view.replace_tree(tree()));
    assert_eq!(view.is_expanded(0), Some(true));
    assert_eq!(view.is_expanded(2), Some(false));
    assert_eq!(view.is_expanded(6), Some(false));
    assert_eq!(nodes_of(&view), vec![0]);
    view.prepare_render(40).unwrap();
    assert_eq!(nodes_of(&view), vec![0, 2, 3, 1]);
    view.handle_event(ViewEvent::Down).unwrap();
    view.handle_event(ViewEvent::Right).unwrap();
    let mut grown = tree();
    grown.push(leaf(3, 0, 0));
    grown[3].first_child = 7;
    grown[3].child_count = 1;
    assert!(view.replace_tree(grown));
    assert_eq!(view.selected_node(), 2);
    assert_eq!(view.is_expanded(2), Some(true));
    assert_eq!(view.is_expanded(7), Some(false));
}

#[test]
fn what_is_no_tree_or_a_smaller_one_replaces_nothing() {
    let mut view = TreeView::new(tree()).unwrap();
    assert!(!view.replace_tree(vec![inner(None, 5, 0, 1)]));
    assert!(!view.replace_tree(vec![]));
    let mut broken = tree();
    broken[2].first_child = 2;
    assert!(!view.replace_tree(broken));
    let mut orphan = tree();
    orphan[4].parent = Some(7);
    assert!(!view.replace_tree(orphan));
    assert_eq!(view.rows().len(), 4);
    assert_eq!(view.is_expanded(6), Some(false));
    assert_eq!(view.is_expanded(7), None);
    assert!(view.replace_tree(tree()));
}
