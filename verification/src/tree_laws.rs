//! Why a view never loses its selection: a node is on a row exactly if every
//! node above it is expanded, and no key and no click selects a node for
//! which that does not hold.

use vstd::prelude::*;
use crate::tree_view::{
    after_event, all_rows, child_ranks, in_child_range, is_first_row_showing, lemma_rank_total,
    ordered_children, rank_leq, rank_of, rows_from, rows_of, tree_ok, Rank, RenderNode, TreeViewState,
    ViewEvent, ViewNode,
};

verus! {

/// `x` is `curr`, or lies below `curr` with every node from `curr` down to
/// the parent of `x` expanded.
pub open spec fn reaches(nodes: Seq<ViewNode>, expanded: Seq<bool>, curr: int, x: int) -> bool
    decreases x,
{
    if x == curr {
        0 <= x < nodes.len()
    } else if x <= curr || x >= nodes.len() {
        false
    } else {
        match nodes[x].parent {
            Some(q) => q < x && expanded[q as int] && reaches(nodes, expanded, curr, q as int),
            None => false,
        }
    }
}

/// `node` is on one of the rows.
pub open spec fn shows(rows: Seq<RenderNode>, node: int) -> bool {
    exists|i: int| 0 <= i < rows.len() && (#[trigger] rows[i]).node == node
}

/// `part` stands in `rows` from row `at` on.
pub open spec fn block_at(rows: Seq<RenderNode>, part: Seq<RenderNode>, at: int) -> bool {
    0 <= at && at + part.len() <= rows.len() && rows.subrange(at, at + part.len()) == part
}

/// A block of a block is a block.
pub proof fn lemma_block_in_block(
    rows: Seq<RenderNode>,
    middle: Seq<RenderNode>,
    part: Seq<RenderNode>,
    at: int,
    within: int,
)
    requires
        block_at(rows, middle, at),
        block_at(middle, part, within),
    ensures
        block_at(rows, part, at + within),
{
    assert(rows.subrange(at + within, at + within + part.len()) =~= rows.subrange(
        at,
        at + middle.len(),
    ).subrange(within, within + part.len()));
}

/// Every child of a node is among its children as they are shown.
pub proof fn lemma_ordered_children_has(nodes: Seq<ViewNode>, node: int, child: int)
    requires
        tree_ok(nodes),
        nodes.len() <= usize::MAX,
        in_child_range(nodes, node, child),
    ensures
        exists|j: int|
            0 <= j < ordered_children(nodes, node).len() && (#[trigger] ordered_children(
                nodes,
                node,
            )[j]).1 == child,
{
    let leq = |a: Rank, b: Rank| rank_leq(a, b);
    let ranks = child_ranks(nodes, node);
    let ordered = ordered_children(nodes, node);
    lemma_rank_total();
    ranks.lemma_sort_by_ensures(leq);
    ranks.to_multiset_ensures();
    ordered.to_multiset_ensures();
    let m = child - nodes[node].first_child;
    assert(ranks[m] == rank_of(nodes, child));
    assert(ranks.contains(rank_of(nodes, child)));
    assert(ranks.to_multiset().count(rank_of(nodes, child)) > 0);
    assert(ordered.contains(rank_of(nodes, child)));
    let j = choose|j: int| 0 <= j < ordered.len() && ordered[j] == rank_of(nodes, child);
    assert(ordered[j].1 == child);
}

/// A node has as many children as are shown.
pub proof fn lemma_ordered_children_len(nodes: Seq<ViewNode>, node: int)
    ensures
        ordered_children(nodes, node).len() == nodes[node].child_count,
{
    let leq = |a: Rank, b: Rank| rank_leq(a, b);
    let ranks = child_ranks(nodes, node);
    lemma_rank_total();
    ranks.lemma_sort_by_ensures(leq);
    ranks.to_multiset_ensures();
    ordered_children(nodes, node).to_multiset_ensures();
}

/// Everything among the children of a node as they are shown is a child of
/// the node.
pub proof fn lemma_ordered_children_in_range(nodes: Seq<ViewNode>, node: int, j: int)
    requires
        tree_ok(nodes),
        nodes.len() <= usize::MAX,
        0 <= node < nodes.len(),
        0 <= j < ordered_children(nodes, node).len(),
    ensures
        in_child_range(nodes, node, ordered_children(nodes, node)[j].1 as int),
{
    let leq = |a: Rank, b: Rank| rank_leq(a, b);
    let ranks = child_ranks(nodes, node);
    let ordered = ordered_children(nodes, node);
    lemma_rank_total();
    ranks.lemma_sort_by_ensures(leq);
    ranks.to_multiset_ensures();
    ordered.to_multiset_ensures();
    assert(ordered.contains(ordered[j]));
    assert(ordered.to_multiset().count(ordered[j]) > 0);
    assert(ranks.contains(ordered[j]));
    let m = choose|m: int| 0 <= m < ranks.len() && ranks[m] == ordered[j];
    assert(ranks[m] == rank_of(nodes, nodes[node].first_child + m));
    assert(nodes[node].child_count > 0);
}

/// The rows of a child's subtree stand together among the rows of the
/// subtrees of all children.
pub proof fn lemma_child_block(
    nodes: Seq<ViewNode>,
    expanded: Seq<bool>,
    parent: int,
    children: Seq<Rank>,
    depth: int,
    j: int,
)
    requires
        0 <= j < children.len(),
        parent < children[j].1 < nodes.len(),
    ensures
        exists|at: int| #[trigger]
            block_at(
                rows_of(nodes, expanded, parent, children, depth),
                rows_from(nodes, expanded, children[j].1 as int, depth),
                at,
            ),
    decreases children.len(),
{
    let all = rows_of(nodes, expanded, parent, children, depth);
    let head = rows_of(nodes, expanded, parent, children.drop_last(), depth);
    let part = rows_from(nodes, expanded, children[j].1 as int, depth);
    if j == children.len() - 1 {
        assert(all =~= head + part);
        assert(all.subrange(head.len() as int, head.len() as int + part.len()) =~= part);
        assert(block_at(all, part, head.len() as int));
    } else {
        lemma_child_block(nodes, expanded, parent, children.drop_last(), depth, j);
        let at = choose|at: int| #[trigger] block_at(head, part, at);
        assert(all.subrange(at, at + part.len()) =~= head.subrange(at, at + part.len()));
        assert(block_at(all, part, at));
    }
}

/// The rows of the subtree of a child of an expanded node stand together
/// among the rows of the subtree of that node.
pub proof fn lemma_expanded_child_block(
    nodes: Seq<ViewNode>,
    expanded: Seq<bool>,
    curr: int,
    child: int,
    depth: int,
)
    requires
        tree_ok(nodes),
        nodes.len() <= usize::MAX,
        expanded[curr],
        in_child_range(nodes, curr, child),
    ensures
        exists|at: int| #[trigger]
            block_at(
                rows_from(nodes, expanded, curr, depth),
                rows_from(nodes, expanded, child, depth + 1),
                at,
            ),
{
    let ordered = ordered_children(nodes, curr);
    lemma_ordered_children_has(nodes, curr, child);
    let j = choose|j: int| 0 <= j < ordered.len() && (#[trigger] ordered[j]).1 == child;
    assert(nodes[curr].child_count > 0);
    lemma_child_block(nodes, expanded, curr, ordered, depth + 1, j);
    let below = rows_of(nodes, expanded, curr, ordered, depth + 1);
    let part = rows_from(nodes, expanded, child, depth + 1);
    let at = choose|at: int| #[trigger] block_at(below, part, at);
    let whole = rows_from(nodes, expanded, curr, depth);
    assert(whole =~= seq![RenderNode { node: curr as usize, depth: depth as usize }] + below);
    assert(whole.subrange(at + 1, at + 1 + part.len()) =~= below.subrange(at, at + part.len()));
    assert(block_at(whole, part, at + 1));
}

/// The rows of the subtree of a node that is reached from the root stand
/// together among the rows of the whole tree.
pub proof fn lemma_reached_is_block(nodes: Seq<ViewNode>, expanded: Seq<bool>, x: int)
    requires
        tree_ok(nodes),
        nodes.len() <= usize::MAX,
        reaches(nodes, expanded, 0, x),
    ensures
        exists|depth: int, at: int| #[trigger]
            block_at(all_rows(nodes, expanded), rows_from(nodes, expanded, x, depth), at),
    decreases x,
{
    let rows = all_rows(nodes, expanded);
    if x == 0 {
        assert(rows.subrange(0, rows.len() as int) =~= rows);
        assert(block_at(rows, rows_from(nodes, expanded, 0, 0), 0));
    } else {
        let q = nodes[x].parent.unwrap() as int;
        lemma_reached_is_block(nodes, expanded, q);
        let (depth, at) = choose|depth: int, at: int| #[trigger]
            block_at(rows, rows_from(nodes, expanded, q, depth), at);
        assert(in_child_range(nodes, q, x));
        lemma_expanded_child_block(nodes, expanded, q, x, depth);
        let middle = rows_from(nodes, expanded, q, depth);
        let part = rows_from(nodes, expanded, x, depth + 1);
        let within = choose|within: int| #[trigger] block_at(middle, part, within);
        lemma_block_in_block(rows, middle, part, at, within);
        assert(block_at(rows, rows_from(nodes, expanded, x, depth + 1), at + within));
    }
}

/// A node that is reached from the root is on a row.
pub proof fn lemma_reached_is_shown(nodes: Seq<ViewNode>, expanded: Seq<bool>, x: int)
    requires
        tree_ok(nodes),
        nodes.len() <= usize::MAX,
        reaches(nodes, expanded, 0, x),
    ensures
        shows(all_rows(nodes, expanded), x),
{
    let rows = all_rows(nodes, expanded);
    lemma_reached_is_block(nodes, expanded, x);
    let (depth, at) = choose|depth: int, at: int| #[trigger]
        block_at(rows, rows_from(nodes, expanded, x, depth), at);
    let part = rows_from(nodes, expanded, x, depth);
    assert(0 <= x < nodes.len()) by {
        reveal_with_fuel(reaches, 1);
    }
    assert(part[0].node == x);
    assert(rows.subrange(at, at + part.len())[0] == rows[at]);
    assert(rows[at].node == x);
}

/// What is reached from a child of an expanded node is reached from that
/// node.
pub proof fn lemma_reach_up(nodes: Seq<ViewNode>, expanded: Seq<bool>, above: int, child: int, x: int)
    requires
        0 <= above < child < nodes.len() <= usize::MAX,
        nodes[child].parent == Some(above as usize),
        expanded.len() == nodes.len(),
        expanded[above],
        reaches(nodes, expanded, child, x),
    ensures
        reaches(nodes, expanded, above, x),
    decreases x,
{
    if x != child {
        let q = nodes[x].parent.unwrap() as int;
        lemma_reach_up(nodes, expanded, above, child, q);
    } else {
        assert(reaches(nodes, expanded, above, above));
    }
}

/// Every row of the subtree of a node shows a node that is reached from it.
pub proof fn lemma_rows_from_reach(
    nodes: Seq<ViewNode>,
    expanded: Seq<bool>,
    curr: int,
    depth: int,
    i: int,
)
    requires
        tree_ok(nodes),
        nodes.len() <= usize::MAX,
        expanded.len() == nodes.len(),
        0 <= i < rows_from(nodes, expanded, curr, depth).len(),
    ensures
        reaches(nodes, expanded, curr, rows_from(nodes, expanded, curr, depth)[i].node as int),
    decreases nodes.len() - curr, 1int, 0int,
{
    if i > 0 {
        let ordered = ordered_children(nodes, curr);
        assert forall|j: int| 0 <= j < ordered.len() implies in_child_range(
            nodes,
            curr,
            (#[trigger] ordered[j]).1 as int,
        ) by {
            lemma_ordered_children_in_range(nodes, curr, j);
        }
        lemma_rows_of_reach(nodes, expanded, curr, ordered, depth + 1, i - 1);
    }
}

/// Every row of the subtrees of children of an expanded node shows a node
/// that is reached from that node.
pub proof fn lemma_rows_of_reach(
    nodes: Seq<ViewNode>,
    expanded: Seq<bool>,
    parent: int,
    children: Seq<Rank>,
    depth: int,
    i: int,
)
    requires
        tree_ok(nodes),
        nodes.len() <= usize::MAX,
        expanded.len() == nodes.len(),
        0 <= parent < nodes.len(),
        expanded[parent],
        forall|j: int|
            0 <= j < children.len() ==> in_child_range(nodes, parent, (#[trigger] children[j]).1 as int),
        0 <= i < rows_of(nodes, expanded, parent, children, depth).len(),
    ensures
        reaches(nodes, expanded, parent, rows_of(nodes, expanded, parent, children, depth)[i].node as int),
    decreases nodes.len() - parent, 0int, children.len(),
{
    let head = rows_of(nodes, expanded, parent, children.drop_last(), depth);
    if i < head.len() {
        assert forall|j: int| 0 <= j < children.drop_last().len() implies in_child_range(
            nodes,
            parent,
            (#[trigger] children.drop_last()[j]).1 as int,
        ) by {
            assert(children.drop_last()[j] == children[j]);
        }
        lemma_rows_of_reach(nodes, expanded, parent, children.drop_last(), depth, i);
    } else {
        let child = children.last().1 as int;
        assert(in_child_range(nodes, parent, children[children.len() - 1].1 as int));
        assert(nodes[parent].child_count > 0);
        lemma_rows_from_reach(nodes, expanded, child, depth, i - head.len());
        let x = rows_from(nodes, expanded, child, depth)[i - head.len()].node as int;
        lemma_reach_up(nodes, expanded, parent, child, x);
    }
}

/// A node that is on a row is reached from the root.
pub proof fn lemma_shown_is_reached(nodes: Seq<ViewNode>, expanded: Seq<bool>, x: int)
    requires
        tree_ok(nodes),
        nodes.len() <= usize::MAX,
        expanded.len() == nodes.len(),
        shows(all_rows(nodes, expanded), x),
    ensures
        reaches(nodes, expanded, 0, x),
{
    let rows = all_rows(nodes, expanded);
    let i = choose|i: int| 0 <= i < rows.len() && (#[trigger] rows[i]).node == x;
    lemma_rows_from_reach(nodes, expanded, 0, 0, i);
}

/// Whether a node is reached does not turn on nodes that are expanded
/// besides, nor on nodes that are not above it.
pub proof fn lemma_reach_kept(
    nodes: Seq<ViewNode>,
    expanded: Seq<bool>,
    changed: Seq<bool>,
    curr: int,
    x: int,
)
    requires
        reaches(nodes, expanded, curr, x),
        forall|q: int| curr <= q < x && expanded[q] ==> #[trigger] changed[q],
    ensures
        reaches(nodes, changed, curr, x),
    decreases x,
{
    if x != curr {
        let q = nodes[x].parent.unwrap() as int;
        lemma_reach_kept(nodes, expanded, changed, curr, q);
    }
}

/// A node is on a row of a tree that is laid out afresh exactly if every
/// node above it is expanded.
pub proof fn lemma_shown_iff_reached(nodes: Seq<ViewNode>, expanded: Seq<bool>, x: int)
    requires
        tree_ok(nodes),
        nodes.len() <= usize::MAX,
        expanded.len() == nodes.len(),
    ensures
        shows(all_rows(nodes, expanded), x) <==> reaches(nodes, expanded, 0, x),
{
    if shows(all_rows(nodes, expanded), x) {
        lemma_shown_is_reached(nodes, expanded, x);
    }
    if reaches(nodes, expanded, 0, x) {
        lemma_reached_is_shown(nodes, expanded, x);
    }
}

/// The selection is never lost: if the rows are laid out afresh and show the
/// selected node, then whatever a key or a click asks for, the node that is
/// selected afterwards is on a row once the rows are laid out again.
pub proof fn lemma_selection_stays_shown(state: TreeViewState, event: ViewEvent, shown: int)
    requires
        state.well_formed(),
        state.nodes.len() <= usize::MAX,
        state.rows == all_rows(state.nodes, state.expanded),
        is_first_row_showing(state.rows, state.selected, shown),
    ensures
        shows(
            all_rows(after_event(state, event, shown).nodes, after_event(state, event, shown).expanded),
            after_event(state, event, shown).selected as int,
        ),
{
    let nodes = state.nodes;
    let expanded = state.expanded;
    let selected = state.selected as int;
    let after = after_event(state, event, shown);
    assert(state.rows[shown].node == state.selected);
    assert(shows(state.rows, selected));
    lemma_shown_is_reached(nodes, expanded, selected);
    match event {
        ViewEvent::Up => {
            if shown > 0 {
                assert(state.rows[shown - 1].node == after.selected);
                assert(shows(state.rows, after.selected as int));
            }
        },
        ViewEvent::Down => {
            if shown + 1 < state.rows.len() {
                assert(state.rows[shown + 1].node == after.selected);
                assert(shows(state.rows, after.selected as int));
            }
        },
        ViewEvent::Click { row, area_y } => {
            let i = row + state.view_offset - area_y - 2;
            if 0 <= i < state.rows.len() {
                assert(state.rows[i].node == after.selected);
                assert(shows(state.rows, after.selected as int));
            }
        },
        ViewEvent::Other => {},
        ViewEvent::Right => {
            if !expanded[selected] {
                lemma_reach_kept(nodes, expanded, after.expanded, 0, selected);
            } else if nodes[selected].child_count > 0 {
                let ordered = ordered_children(nodes, selected);
                lemma_ordered_children_len(nodes, selected);
                lemma_ordered_children_in_range(nodes, selected, 0);
                let child = ordered[0].1 as int;
                assert(in_child_range(nodes, selected, child));
                assert(reaches(nodes, expanded, 0, child));
                lemma_reach_kept(nodes, expanded, after.expanded, 0, child);
            }
            lemma_reached_is_shown(nodes, after.expanded, after.selected as int);
        },
        ViewEvent::Left => {
            if expanded[selected] {
                lemma_reach_kept(nodes, expanded, after.expanded, 0, selected);
            } else {
                match nodes[selected].parent {
                    Some(p) => {
                        assert(in_child_range(nodes, p as int, selected));
                        assert(reaches(nodes, expanded, 0, p as int));
                        lemma_reach_kept(nodes, expanded, after.expanded, 0, p as int);
                    },
                    None => {},
                }
            }
            lemma_reached_is_shown(nodes, after.expanded, after.selected as int);
        },
    }
}

} // verus!
