//! A search tree as a list of rows: which nodes are shown, in which order,
//! which one is selected, and how keys and clicks move the selection.
//!
//! The tree is a snapshot of what the view reads of every node. Nodes are
//! numbered; the root is node zero and the children of a node stand side by
//! side, after their parent.

use itertools::Itertools;
use vstd::prelude::*;
use vstd::relations::{sorted_by, total_ordering};
use vstd::seq_lib::lemma_sorted_unique;

verus! {

/// What the view reads of a node.
#[derive(Clone, Copy, Debug, PartialEq, Eq, Structural)]
pub struct ViewNode {
    /// The parent, or `None` for the root.
    pub parent: Option<usize>,
    /// The number of the first child.
    pub first_child: usize,
    /// The number of children.
    pub child_count: usize,
    /// The number of visits.
    pub visits: u64,
    /// The prior of the node as a whole number that grows with it.
    pub policy_key: u32,
}

/// A row of the view: a node and its depth in the tree.
#[derive(Clone, Copy, Debug, PartialEq, Eq, Structural)]
pub struct RenderNode {
    pub node: usize,
    pub depth: usize,
}

/// The key by which siblings are sorted: what is missing to the greatest
/// number of visits, then what is missing to the greatest prior. The smaller,
/// the earlier.
pub type RankKey = (u64, u32);

/// A node as it is ranked among its siblings: its key and its number.
pub type Rank = (RankKey, usize);

/// `a` comes no later than `b`: more visits first, then the greater prior,
/// then the smaller number.
pub open spec fn rank_leq(a: Rank, b: Rank) -> bool {
    a.0.0 < b.0.0 || (a.0.0 == b.0.0 && (a.0.1 < b.0.1 || (a.0.1 == b.0.1 && a.1 <= b.1)))
}

/// The ranking is a total order.
pub proof fn lemma_rank_total()
    ensures
        total_ordering(|a: Rank, b: Rank| rank_leq(a, b)),
{
    let leq = |a: Rank, b: Rank| rank_leq(a, b);
    assert(vstd::relations::reflexive(leq));
    assert(vstd::relations::antisymmetric(leq)) by {
        assert forall|x: Rank, y: Rank| #[trigger] leq(x, y) && #[trigger] leq(y, x) implies x == y by {
            assert(x.0.0 == y.0.0 && x.0.1 == y.0.1 && x.1 == y.1);
        }
    }
    assert(vstd::relations::transitive(leq));
    assert(vstd::relations::strongly_connected(leq));
}

/// The numbers of a run of ranks increase strictly.
pub open spec fn numbers_increase(items: Seq<Rank>) -> bool {
    forall|i: int, j: int| 0 <= i < j < items.len() ==> (#[trigger] items[i]).1 < (#[trigger] items[j]).1
}

/// Sorts ranks by their keys, equal keys in the order in which they came.
///
/// This calls `itertools::Itertools::sorted_by_key` with the key of a rank
/// as the key; keys are pairs of whole numbers, which are ordered by their
/// first part and then by their second. It is taken on trust that what
/// comes back holds the same ranks as `items`, in ascending order of the key,
/// equal keys in their old order: `sorted_by_key` documents that it sorts
/// with `slice::sort_by_key`, which is a stable sort. Since the numbers of
/// `items` increase, equal keys in their old order are in the order of their
/// numbers.
#[verifier::external_body]
fn sorted_by_rank(items: Vec<Rank>) -> (sorted: Vec<Rank>)
    requires
        numbers_increase(items@),
    ensures
        sorted@.to_multiset() == items@.to_multiset(),
        sorted_by(sorted@, |a: Rank, b: Rank| rank_leq(a, b)),
{
    items.into_iter().sorted_by_key(|item| item.0).collect()
}

/// The rank of node `node`.
pub open spec fn rank_of(nodes: Seq<ViewNode>, node: int) -> Rank {
    (
        ((u64::MAX - nodes[node].visits) as u64, (u32::MAX - nodes[node].policy_key) as u32),
        node as usize,
    )
}

/// The ranks of the children of `node`, in the order of their numbers.
pub open spec fn child_ranks(nodes: Seq<ViewNode>, node: int) -> Seq<Rank> {
    Seq::new(
        nodes[node].child_count as nat,
        |k: int| rank_of(nodes, nodes[node].first_child + k),
    )
}

/// The children of `node` in the order in which they are shown: the most
/// visited first, among equally visited ones the one with the greater prior,
/// among equals the one with the smaller number.
pub open spec fn ordered_children(nodes: Seq<ViewNode>, node: int) -> Seq<Rank> {
    child_ranks(nodes, node).sort_by(|a: Rank, b: Rank| rank_leq(a, b))
}

/// `child` is one of the children of `node`.
pub open spec fn in_child_range(nodes: Seq<ViewNode>, node: int, child: int) -> bool {
    &&& 0 <= node < nodes.len()
    &&& nodes[node].first_child <= child < nodes[node].first_child + nodes[node].child_count
}

/// What makes a run of nodes a tree: the children of every node come after
/// it and lie within the tree, every child names its parent, and every
/// parent that is named has the node that names it among its children.
pub open spec fn tree_ok(nodes: Seq<ViewNode>) -> bool {
    &&& forall|i: int|
        0 <= i < nodes.len() && (#[trigger] nodes[i]).child_count > 0 ==> i < nodes[i].first_child
            && nodes[i].first_child + nodes[i].child_count <= nodes.len()
    &&& forall|i: int|
        0 <= i < nodes.len() ==> ((#[trigger] nodes[i]).parent matches Some(p) ==> in_child_range(
            nodes,
            p as int,
            i,
        ))
    &&& forall|i: int, c: int| #[trigger]
        in_child_range(nodes, i, c) ==> 0 <= c < nodes.len() && nodes[c].parent == Some(i as usize)
}

/// Whether `nodes` is a tree.
fn check_tree(nodes: &Vec<ViewNode>) -> (r: bool)
    ensures
        r == tree_ok(nodes@),
{
    let len = nodes.len();
    let mut i: usize = 0;
    while i < len
        invariant
            i <= len,
            len == nodes@.len(),
            forall|k: int|
                0 <= k < i && (#[trigger] nodes@[k]).child_count > 0 ==> k < nodes@[k].first_child
                    && nodes@[k].first_child + nodes@[k].child_count <= len,
            forall|k: int|
                0 <= k < i ==> ((#[trigger] nodes@[k]).parent matches Some(p) ==> in_child_range(
                    nodes@,
                    p as int,
                    k,
                )),
            forall|k: int, c: int|
                0 <= k < i && #[trigger] in_child_range(nodes@, k, c) ==> 0 <= c < len
                    && nodes@[c].parent == Some(k as usize),
        decreases len - i,
    {
        let node = &nodes[i];
        if node.child_count > 0 {
            if node.first_child <= i || node.first_child >= len || node.child_count > len
                - node.first_child {
                return false;
            }
            let first = node.first_child;
            let count = node.child_count;
            let mut k: usize = 0;
            while k < count
                invariant
                    k <= count,
                    i < len,
                    len == nodes@.len(),
                    first == nodes@[i as int].first_child,
                    count == nodes@[i as int].child_count,
                    first + count <= len,
                    forall|c: int| first <= c < first + k ==> (#[trigger] nodes@[c]).parent == Some(i),
                decreases count - k,
            {
                let named = match nodes[first + k].parent {
                    Some(p) => p == i,
                    None => false,
                };
                if !named {
                    assert(in_child_range(nodes@, i as int, first + k));
                    return false;
                }
                k = k + 1;
            }
        }
        match node.parent {
            Some(p) => {
                if p >= len {
                    return false;
                }
                let above = &nodes[p];
                if i < above.first_child || i - above.first_child >= above.child_count {
                    return false;
                }
            },
            None => {},
        }
        i = i + 1;
    }
    true
}

/// The rows of the subtree of `curr`, which stands at depth `depth`: the
/// node itself, then, if it is expanded, the rows of its children in the
/// order in which they are shown.
pub open spec fn rows_from(nodes: Seq<ViewNode>, expanded: Seq<bool>, curr: int, depth: int) -> Seq<
    RenderNode,
>
    decreases nodes.len() - curr, 1int, 0int,
{
    if 0 <= curr < nodes.len() {
        seq![RenderNode { node: curr as usize, depth: depth as usize }] + (if expanded[curr] {
            rows_of(nodes, expanded, curr, ordered_children(nodes, curr), depth + 1)
        } else {
            Seq::empty()
        })
    } else {
        Seq::empty()
    }
}

/// The rows of the subtrees of `children`, all children of `parent` and at
/// depth `depth`, one subtree after the other.
pub open spec fn rows_of(
    nodes: Seq<ViewNode>,
    expanded: Seq<bool>,
    parent: int,
    children: Seq<Rank>,
    depth: int,
) -> Seq<RenderNode>
    decreases nodes.len() - parent, 0int, children.len(),
{
    if children.len() == 0 {
        Seq::empty()
    } else {
        rows_of(nodes, expanded, parent, children.drop_last(), depth) + (if parent
            < children.last().1 < nodes.len() {
            rows_from(nodes, expanded, children.last().1 as int, depth)
        } else {
            Seq::empty()
        })
    }
}

/// The rows of the whole tree.
pub open spec fn all_rows(nodes: Seq<ViewNode>, expanded: Seq<bool>) -> Seq<RenderNode> {
    rows_from(nodes, expanded, 0, 0)
}

/// Every row shows a node of a tree of `len` nodes.
pub open spec fn rows_in_tree(rows: Seq<RenderNode>, len: nat) -> bool {
    forall|i: int| 0 <= i < rows.len() ==> (#[trigger] rows[i]).node < len
}

/// The rows of a subtree show nodes of the tree.
pub proof fn lemma_rows_from_in_tree(nodes: Seq<ViewNode>, expanded: Seq<bool>, curr: int, depth: int)
    requires
        0 <= depth,
        nodes.len() <= usize::MAX,
    ensures
        rows_in_tree(rows_from(nodes, expanded, curr, depth), nodes.len()),
    decreases nodes.len() - curr, 1int, 0int,
{
    if 0 <= curr < nodes.len() {
        if expanded[curr] {
            lemma_rows_of_in_tree(nodes, expanded, curr, ordered_children(nodes, curr), depth + 1);
        }
    }
}

/// The rows of the subtrees of some children show nodes of the tree.
pub proof fn lemma_rows_of_in_tree(
    nodes: Seq<ViewNode>,
    expanded: Seq<bool>,
    parent: int,
    children: Seq<Rank>,
    depth: int,
)
    requires
        0 <= depth,
        nodes.len() <= usize::MAX,
    ensures
        rows_in_tree(rows_of(nodes, expanded, parent, children, depth), nodes.len()),
    decreases nodes.len() - parent, 0int, children.len(),
{
    if children.len() > 0 {
        lemma_rows_of_in_tree(nodes, expanded, parent, children.drop_last(), depth);
        if parent < children.last().1 < nodes.len() {
            lemma_rows_from_in_tree(nodes, expanded, children.last().1 as int, depth);
        }
    }
}

/// A search tree as it is looked at.
pub struct TreeView {
    nodes: Vec<ViewNode>,
    expanded: Vec<bool>,
    selected: usize,
    view_offset: usize,
    rows: Vec<RenderNode>,
}

/// The mathematical content of a view.
pub struct TreeViewState {
    pub nodes: Seq<ViewNode>,
    pub expanded: Seq<bool>,
    pub selected: usize,
    pub view_offset: usize,
    pub rows: Seq<RenderNode>,
}

impl View for TreeView {
    type V = TreeViewState;

    closed spec fn view(&self) -> TreeViewState {
        TreeViewState {
            nodes: self.nodes@,
            expanded: self.expanded@,
            selected: self.selected,
            view_offset: self.view_offset,
            rows: self.rows@,
        }
    }
}

impl TreeViewState {
    /// What holds of every view: the tree is not empty, children come after
    /// their parents, every node is either expanded or not, and the selected
    /// node is a node.
    pub open spec fn well_formed(self) -> bool {
        &&& self.nodes.len() > 0
        &&& tree_ok(self.nodes)
        &&& self.expanded.len() == self.nodes.len()
        &&& self.selected < self.nodes.len()
        &&& rows_in_tree(self.rows, self.nodes.len())
    }
}

/// The ranks of the children of `node`, in the order of their numbers.
fn collect_child_ranks(nodes: &Vec<ViewNode>, node: usize) -> (r: Vec<Rank>)
    requires
        tree_ok(nodes@),
        node < nodes@.len(),
    ensures
        r@ == child_ranks(nodes@, node as int),
        numbers_increase(r@),
{
    let first = nodes[node].first_child;
    let count = nodes[node].child_count;
    let len = nodes.len();
    assert(nodes@[node as int].child_count > 0 ==> first + count <= len);
    let mut out: Vec<Rank> = Vec::new();
    let mut k: usize = 0;
    while k < count
        invariant
            k <= count,
            node < nodes@.len(),
            len == nodes@.len(),
            first == nodes@[node as int].first_child,
            count == nodes@[node as int].child_count,
            count > 0 ==> first + count <= len,
            out@.len() == k,
            forall|j: int| 0 <= j < k ==> #[trigger] out@[j] == rank_of(nodes@, first + j),
        decreases count - k,
    {
        let child = &nodes[first + k];
        out.push(((u64::MAX - child.visits, u32::MAX - child.policy_key), first + k));
        k = k + 1;
    }
    assert(out@ =~= child_ranks(nodes@, node as int));
    assert forall|i: int, j: int| 0 <= i < j < out@.len() implies (#[trigger] out@[i]).1 < (
    #[trigger] out@[j]).1 by {
        assert(out@[i] == rank_of(nodes@, first + i));
        assert(out@[j] == rank_of(nodes@, first + j));
    }
    out
}

/// The children of `node` in the order in which they are shown.
fn sorted_children(nodes: &Vec<ViewNode>, node: usize) -> (r: Vec<Rank>)
    requires
        tree_ok(nodes@),
        node < nodes@.len(),
    ensures
        r@ == ordered_children(nodes@, node as int),
        r@.len() == nodes@[node as int].child_count,
        forall|k: int|
            0 <= k < r@.len() ==> node < (#[trigger] r@[k]).1 < nodes@.len(),
{
    let items = collect_child_ranks(nodes, node);
    let sorted = sorted_by_rank(items);
    let len = nodes.len();
    proof {
        let leq = |a: Rank, b: Rank| rank_leq(a, b);
        lemma_rank_total();
        items@.lemma_sort_by_ensures(leq);
        lemma_sorted_unique(sorted@, items@.sort_by(leq), leq);
        sorted@.to_multiset_ensures();
        items@.to_multiset_ensures();
        assert(sorted@.len() == items@.len());
        assert forall|k: int| 0 <= k < sorted@.len() implies node < (#[trigger] sorted@[k]).1
            < nodes@.len() by {
            assert(sorted@.contains(sorted@[k]));
            assert(sorted@.to_multiset().count(sorted@[k]) > 0);
            assert(items@.to_multiset().count(sorted@[k]) > 0);
            assert(items@.contains(sorted@[k]));
            let j = choose|j: int| 0 <= j < items@.len() && items@[j] == sorted@[k];
            let parent = nodes@[node as int];
            assert(parent.child_count > 0);
            assert(node < parent.first_child && parent.first_child + parent.child_count
                <= nodes@.len());
            assert(items@[j] == rank_of(nodes@, parent.first_child + j));
            assert(parent.first_child + j < len);
            assert(sorted@[k].1 == parent.first_child + j);
        }
    }
    sorted
}

/// Appends the rows of the subtree of `curr`, which stands at depth
/// `depth`, to `result`.
fn append_nodes(
    nodes: &Vec<ViewNode>,
    expanded: &Vec<bool>,
    curr: usize,
    depth: usize,
    result: &mut Vec<RenderNode>,
)
    requires
        tree_ok(nodes@),
        expanded@.len() == nodes@.len(),
        curr < nodes@.len(),
        depth + (nodes@.len() - curr) <= usize::MAX,
    ensures
        final(result)@ == old(result)@ + rows_from(nodes@, expanded@, curr as int, depth as int),
    decreases nodes@.len() - curr,
{
    result.push(RenderNode { node: curr, depth });
    if expanded[curr] {
        let children = sorted_children(nodes, curr);
        let ghost base = result@;
        let mut k: usize = 0;
        while k < children.len()
            invariant
                k <= children@.len(),
                tree_ok(nodes@),
                expanded@.len() == nodes@.len(),
                curr < nodes@.len(),
                depth + (nodes@.len() - curr) <= usize::MAX,
                children@ == ordered_children(nodes@, curr as int),
                forall|j: int|
                    0 <= j < children@.len() ==> curr < (#[trigger] children@[j]).1 < nodes@.len(),
                result@ == base + rows_of(
                    nodes@,
                    expanded@,
                    curr as int,
                    children@.take(k as int),
                    depth + 1,
                ),
            decreases children@.len() - k,
        {
            let child = children[k].1;
            let ghost before = result@;
            append_nodes(nodes, expanded, child, depth + 1, result);
            proof {
                let upto = children@.take(k + 1);
                assert(upto.drop_last() =~= children@.take(k as int));
                assert(upto.last() == children@[k as int]);
                assert(result@ =~= base + rows_of(nodes@, expanded@, curr as int, upto, depth + 1));
            }
            k = k + 1;
        }
        proof {
            assert(children@.take(k as int) =~= children@);
            assert(result@ =~= old(result)@ + rows_from(nodes@, expanded@, curr as int, depth as int));
        }
    } else {
        assert(result@ =~= old(result)@ + rows_from(nodes@, expanded@, curr as int, depth as int));
    }
}

/// The number of rows above the first row of nodes.
pub const HEADER_SIZE: u16 = 2;

/// The number of rows kept between the selected row and the edge of the
/// window, where the window is high enough.
pub const OFFSET_MARGIN: u16 = 3;

/// The number of blank columns between two columns of the table.
pub const COL_SPACING: u16 = 2;

/// What a key or the mouse asks of the view.
#[derive(Clone, Copy, Debug, PartialEq, Eq, Structural)]
pub enum ViewEvent {
    /// Select the row above.
    Up,
    /// Select the row below.
    Down,
    /// Expand the selected node, or step into it.
    Right,
    /// Collapse the selected node, or step out of it.
    Left,
    /// The left button was released on screen row `row`, in a window whose
    /// first row is screen row `area_y`.
    Click { row: u16, area_y: u16 },
    /// Anything else.
    Other,
}

/// Why the view could not do what was asked.
#[derive(Clone, Copy, Debug, PartialEq, Eq, Structural)]
pub enum ViewError {
    /// The selected node is on none of the rows.
    SelectionNotShown,
    /// The window is too low for the margin around the selected row.
    WindowTooLow,
}

/// Row `i` shows `node` and no row above it does.
pub open spec fn is_first_row_showing(rows: Seq<RenderNode>, node: usize, i: int) -> bool {
    &&& 0 <= i < rows.len()
    &&& rows[i].node == node
    &&& forall|j: int| 0 <= j < i ==> (#[trigger] rows[j]).node != node
}

/// The first row that shows `node`, if any does.
pub fn find_row(rows: &Vec<RenderNode>, node: usize) -> (r: Option<usize>)
    ensures
        match r {
            Some(i) => is_first_row_showing(rows@, node, i as int),
            None => forall|j: int| 0 <= j < rows@.len() ==> (#[trigger] rows@[j]).node != node,
        },
{
    let mut i: usize = 0;
    while i < rows.len()
        invariant
            i <= rows@.len(),
            forall|j: int| 0 <= j < i ==> (#[trigger] rows@[j]).node != node,
        decreases rows@.len() - i,
    {
        if rows[i].node == node {
            return Some(i);
        }
        i = i + 1;
    }
    None
}

/// The margin kept around the selected row in a window of `height` rows.
pub open spec fn margin_for(height: int) -> int {
    if (height - 1) / 2 < OFFSET_MARGIN as int {
        (height - 1) / 2
    } else {
        OFFSET_MARGIN as int
    }
}

/// The least offset at which row `selected` is still `margin` rows above the
/// lower edge of a window of `height` rows.
pub open spec fn least_offset(selected: int, height: int) -> int {
    selected - (height - HEADER_SIZE as int) + margin_for(height)
}

/// The greatest offset at which row `selected` is still `margin` rows below
/// the upper edge.
pub open spec fn greatest_offset(selected: int, height: int) -> int {
    if selected >= margin_for(height) {
        selected - margin_for(height)
    } else {
        0
    }
}

/// The offset that shows row `selected` in a window of `height` rows and is
/// nearest to `offset`. `None` if the window is too low for any.
pub open spec fn fitted_offset(offset: int, selected: int, height: int) -> Option<int> {
    let least = least_offset(selected, height);
    let greatest = greatest_offset(selected, height);
    if height < 1 || least > greatest {
        None
    } else if offset < least {
        Some(least)
    } else if offset > greatest {
        Some(greatest)
    } else {
        Some(offset)
    }
}

/// Moves `offset` as little as is needed to show row `selected` in a window
/// of `height` rows.
pub fn fit_offset(offset: usize, selected: usize, height: u16) -> (r: Option<usize>)
    ensures
        match r {
            Some(o) => fitted_offset(offset as int, selected as int, height as int) == Some(o as int),
            None => fitted_offset(offset as int, selected as int, height as int).is_none(),
        },
{
    if height < 1 {
        return None;
    }
    let half: u16 = (height - 1) / 2;
    let margin: u16 = if half < OFFSET_MARGIN {
        half
    } else {
        OFFSET_MARGIN
    };
    let greatest: usize = if selected >= margin as usize {
        selected - margin as usize
    } else {
        0
    };
    let least: i128 = selected as i128 - (height as i128 - HEADER_SIZE as i128) + margin as i128;
    if least > greatest as i128 {
        None
    } else if (offset as i128) < least {
        Some(least as usize)
    } else if offset > greatest {
        Some(greatest)
    } else {
        Some(offset)
    }
}

/// The view after an event, if the selected node is on row `shown`.
pub open spec fn after_event(state: TreeViewState, event: ViewEvent, shown: int) -> TreeViewState {
    match event {
        ViewEvent::Up => if shown > 0 {
            TreeViewState { selected: state.rows[shown - 1].node, ..state }
        } else {
            state
        },
        ViewEvent::Down => if shown + 1 < state.rows.len() {
            TreeViewState { selected: state.rows[shown + 1].node, ..state }
        } else {
            state
        },
        ViewEvent::Right => if !state.expanded[state.selected as int] {
            TreeViewState { expanded: state.expanded.update(state.selected as int, true), ..state }
        } else if state.nodes[state.selected as int].child_count > 0 {
            let child = ordered_children(state.nodes, state.selected as int)[0].1;
            TreeViewState {
                selected: child,
                expanded: state.expanded.update(child as int, true),
                ..state
            }
        } else {
            state
        },
        ViewEvent::Left => if state.expanded[state.selected as int] {
            TreeViewState { expanded: state.expanded.update(state.selected as int, false), ..state }
        } else {
            match state.nodes[state.selected as int].parent {
                Some(p) => TreeViewState {
                    selected: p,
                    expanded: state.expanded.update(p as int, false),
                    ..state
                },
                None => state,
            }
        },
        ViewEvent::Click { row, area_y } => {
            let i = row + state.view_offset - area_y - HEADER_SIZE;
            if 0 <= i < state.rows.len() {
                TreeViewState { selected: state.rows[i].node, ..state }
            } else {
                state
            }
        },
        ViewEvent::Other => state,
    }
}

/// Whether an event needs to know on which row the selected node is.
pub open spec fn needs_row(event: ViewEvent) -> bool {
    event == ViewEvent::Up || event == ViewEvent::Down
}

impl TreeView {
    #[verifier::type_invariant]
    spec fn always_well_formed(self) -> bool {
        self@.well_formed()
    }

    /// A view of a tree of one node, to stand in while a view is rebuilt.
    fn single() -> (r: TreeView)
        ensures
            r@.well_formed(),
    {
        let mut nodes: Vec<ViewNode> = Vec::new();
        nodes.push(
            ViewNode { parent: None, first_child: 0, child_count: 0, visits: 0, policy_key: 0 },
        );
        let mut expanded: Vec<bool> = Vec::new();
        expanded.push(false);
        TreeView { nodes, expanded, selected: 0, view_offset: 0, rows: Vec::new() }
    }

    /// Expands or collapses `node`.
    fn set_expanded(&mut self, node: usize, value: bool)
        requires
            node < old(self)@.nodes.len(),
        ensures
            final(self)@ == (TreeViewState {
                expanded: old(self)@.expanded.update(node as int, value),
                ..old(self)@
            }),
    {
        proof {
            use_type_invariant(&*self);
        }
        let mut taken = TreeView::single();
        core::mem::swap(self, &mut taken);
        let mut expanded = taken.expanded;
        expanded.set(node, value);
        *self = TreeView {
            nodes: taken.nodes,
            expanded,
            selected: taken.selected,
            view_offset: taken.view_offset,
            rows: taken.rows,
        };
    }

    /// A view of `nodes` in which only the root is expanded and selected.
    /// `None` if `nodes` is no tree.
    pub fn new(nodes: Vec<ViewNode>) -> (r: Option<TreeView>)
        ensures
            r.is_some() <==> nodes@.len() > 0 && tree_ok(nodes@),
            r matches Some(view) ==> {
                &&& view@.well_formed()
                &&& view@.nodes == nodes@
                &&& view@.expanded == Seq::new(nodes@.len(), |i: int| i == 0)
                &&& view@.selected == 0
                &&& view@.view_offset == 0
                &&& view@.rows == all_rows(view@.nodes, view@.expanded)
            },
    {
        let len = nodes.len();
        if len == 0 || !check_tree(&nodes) {
            return None;
        }
        let mut expanded: Vec<bool> = Vec::new();
        let mut i: usize = 0;
        while i < len
            invariant
                i <= len,
                expanded@ == Seq::new(i as nat, |k: int| k == 0),
            decreases len - i,
        {
            expanded.push(i == 0);
            assert(expanded@ =~= Seq::new((i + 1) as nat, |k: int| k == 0));
            i = i + 1;
        }
        let mut rows: Vec<RenderNode> = Vec::new();
        append_nodes(&nodes, &expanded, 0, 0, &mut rows);
        proof {
            lemma_rows_from_in_tree(nodes@, expanded@, 0, 0);
            assert(rows@ =~= all_rows(nodes@, expanded@));
        }
        Some(TreeView { nodes, expanded, selected: 0, view_offset: 0, rows })
    }

    /// Looks at the tree again after it has grown: `nodes` takes the place
    /// of the tree, the nodes that were there stay expanded or collapsed as
    /// they were, and new nodes are collapsed. The rows stay as they were
    /// laid out. If `nodes` is no tree, or a smaller one, nothing changes,
    /// and the answer is `false`.
    pub fn replace_tree(&mut self, nodes: Vec<ViewNode>) -> (r: bool)
        ensures
            final(self)@.well_formed(),
            r == (tree_ok(nodes@) && nodes@.len() >= old(self)@.nodes.len()),
            r ==> final(self)@ == (TreeViewState {
                nodes: nodes@,
                expanded: old(self)@.expanded + Seq::new(
                    (nodes@.len() - old(self)@.nodes.len()) as nat,
                    |i: int| false,
                ),
                ..old(self)@
            }),
            !r ==> final(self)@ == old(self)@,
    {
        proof {
            use_type_invariant(&*self);
        }
        let len = nodes.len();
        let before = self.nodes.len();
        if len < before || !check_tree(&nodes) {
            return false;
        }
        let mut taken = TreeView::single();
        core::mem::swap(self, &mut taken);
        let mut expanded = taken.expanded;
        let mut k: usize = before;
        while k < len
            invariant
                before <= k <= len,
                before == old(self)@.expanded.len(),
                expanded@ == old(self)@.expanded + Seq::new((k - before) as nat, |i: int| false),
            decreases len - k,
        {
            expanded.push(false);
            assert(expanded@ =~= old(self)@.expanded + Seq::new(
                (k + 1 - before) as nat,
                |i: int| false,
            ));
            k = k + 1;
        }
        *self = TreeView {
            nodes,
            expanded,
            selected: taken.selected,
            view_offset: taken.view_offset,
            rows: taken.rows,
        };
        true
    }

    /// The rows as they were last laid out.
    pub fn rows(&self) -> (r: &Vec<RenderNode>)
        ensures
            r@ == self@.rows,
    {
        &self.rows
    }

    /// The selected node.
    pub fn selected_node(&self) -> (r: usize)
        ensures
            r == self@.selected,
    {
        self.selected
    }

    /// The number of rows scrolled out of the window at its top.
    pub fn view_offset(&self) -> (r: usize)
        ensures
            r == self@.view_offset,
    {
        self.view_offset
    }

    /// Whether `node` is expanded. `None` if there is no such node.
    pub fn is_expanded(&self, node: usize) -> (r: Option<bool>)
        ensures
            self@.well_formed(),
            r == (if node < self@.nodes.len() {
                Some(self@.expanded[node as int])
            } else {
                None
            }),
    {
        proof {
            use_type_invariant(self);
        }
        if node < self.expanded.len() {
            Some(self.expanded[node])
        } else {
            None
        }
    }

    /// The row on which the selected node is shown, if it is shown.
    pub fn selected_index(&self) -> (r: Option<usize>)
        ensures
            match r {
                Some(i) => is_first_row_showing(self@.rows, self@.selected, i as int),
                None => forall|j: int|
                    0 <= j < self@.rows.len() ==> (#[trigger] self@.rows[j]).node != self@.selected,
            },
    {
        find_row(&self.rows, self.selected)
    }

    /// Lays the rows out afresh for a window of `height` rows and scrolls as
    /// little as is needed to show the selected row with its margin.
    ///
    /// The rows are laid out in any case. On an error the scroll offset
    /// stays as it was.
    pub fn prepare_render(&mut self, height: u16) -> (r: Result<(), ViewError>)
        ensures
            final(self)@.well_formed(),
            final(self)@.nodes == old(self)@.nodes,
            final(self)@.expanded == old(self)@.expanded,
            final(self)@.selected == old(self)@.selected,
            final(self)@.rows == all_rows(old(self)@.nodes, old(self)@.expanded),
            match r {
                Ok(()) => exists|i: int|
                    {
                        &&& is_first_row_showing(final(self)@.rows, final(self)@.selected, i)
                        &&& fitted_offset(old(self)@.view_offset as int, i, height as int) == Some(
                            final(self)@.view_offset as int,
                        )
                    },
                Err(ViewError::SelectionNotShown) => {
                    &&& final(self)@.view_offset == old(self)@.view_offset
                    &&& forall|j: int|
                        0 <= j < final(self)@.rows.len() ==> (#[trigger] final(self)@.rows[j]).node
                            != final(self)@.selected
                },
                Err(ViewError::WindowTooLow) => {
                    &&& final(self)@.view_offset == old(self)@.view_offset
                    &&& exists|i: int|
                        {
                            &&& is_first_row_showing(final(self)@.rows, final(self)@.selected, i)
                            &&& fitted_offset(old(self)@.view_offset as int, i, height as int).is_none()
                        }
                },
            },
    {
        proof {
            use_type_invariant(&*self);
        }
        let mut rows: Vec<RenderNode> = Vec::new();
        let len = self.nodes.len();
        append_nodes(&self.nodes, &self.expanded, 0, 0, &mut rows);
        proof {
            lemma_rows_from_in_tree(self.nodes@, self.expanded@, 0, 0);
            assert(rows@ =~= all_rows(self.nodes@, self.expanded@));
        }
        self.rows = rows;
        let selected = match find_row(&self.rows, self.selected) {
            Some(i) => i,
            None => {
                return Err(ViewError::SelectionNotShown);
            },
        };
        match fit_offset(self.view_offset, selected, height) {
            Some(offset) => {
                self.view_offset = offset;
                assert(is_first_row_showing(self@.rows, self@.selected, selected as int));
                assert(fitted_offset(
                    old(self)@.view_offset as int,
                    selected as int,
                    height as int,
                ) == Some(self@.view_offset as int));
                Ok(())
            },
            None => {
                assert(is_first_row_showing(self@.rows, self@.selected, selected as int));
                assert(fitted_offset(
                    old(self)@.view_offset as int,
                    selected as int,
                    height as int,
                ).is_none());
                Err(ViewError::WindowTooLow)
            },
        }
    }

    /// The node shown on line `line` of the window, lines counted from the
    /// first line below the header.
    pub fn row_at(&self, line: u16) -> (r: Option<RenderNode>)
        ensures
            r == (if line + self@.view_offset < self@.rows.len() {
                Some(self@.rows[line + self@.view_offset])
            } else {
                None
            }),
    {
        let shown = self.rows.len();
        match self.view_offset.checked_add(line as usize) {
            Some(i) => {
                if i < shown {
                    Some(self.rows[i])
                } else {
                    None
                }
            },
            None => None,
        }
    }

    /// Does what a key or the mouse asks for, on the rows as they were last
    /// laid out. `Up` and `Down` need the selected node to be on a row; if it
    /// is on none, nothing changes.
    pub fn handle_event(&mut self, event: ViewEvent) -> (r: Result<(), ViewError>)
        ensures
            final(self)@.well_formed(),
            match r {
                Ok(()) => if needs_row(event) {
                    exists|i: int|
                        is_first_row_showing(old(self)@.rows, old(self)@.selected, i) && final(self)@
                            == after_event(old(self)@, event, i)
                } else {
                    final(self)@ == after_event(old(self)@, event, 0)
                },
                Err(e) => {
                    &&& e == ViewError::SelectionNotShown
                    &&& needs_row(event)
                    &&& final(self)@ == old(self)@
                    &&& forall|j: int|
                        0 <= j < old(self)@.rows.len() ==> (#[trigger] old(self)@.rows[j]).node
                            != old(self)@.selected
                },
            },
    {
        proof {
            use_type_invariant(&*self);
        }
        match event {
            ViewEvent::Up => {
                let index = match find_row(&self.rows, self.selected) {
                    Some(i) => i,
                    None => {
                        return Err(ViewError::SelectionNotShown);
                    },
                };
                if index != 0 {
                    self.selected = self.rows[index - 1].node;
                }
                assert(is_first_row_showing(old(self)@.rows, old(self)@.selected, index as int));
                assert(self@ == after_event(old(self)@, event, index as int));
                Ok(())
            },
            ViewEvent::Down => {
                let index = match find_row(&self.rows, self.selected) {
                    Some(i) => i,
                    None => {
                        return Err(ViewError::SelectionNotShown);
                    },
                };
                let shown = self.rows.len();
                assert(index < shown);
                if index + 1 < shown {
                    self.selected = self.rows[index + 1].node;
                }
                assert(is_first_row_showing(old(self)@.rows, old(self)@.selected, index as int));
                assert(self@ == after_event(old(self)@, event, index as int));
                Ok(())
            },
            ViewEvent::Right => {
                if !self.expanded[self.selected] {
                    self.set_expanded(self.selected, true);
                } else if self.nodes[self.selected].child_count > 0 {
                    let children = sorted_children(&self.nodes, self.selected);
                    let child = children[0].1;
                    self.selected = child;
                    self.set_expanded(child, true);
                }
                Ok(())
            },
            ViewEvent::Left => {
                if self.expanded[self.selected] {
                    self.set_expanded(self.selected, false);
                } else {
                    match self.nodes[self.selected].parent {
                        Some(p) => {
                            self.selected = p;
                            self.set_expanded(p, false);
                        },
                        None => {},
                    }
                }
                Ok(())
            },
            ViewEvent::Click { row, area_y } => {
                let i: i128 = row as i128 + self.view_offset as i128 - area_y as i128
                    - HEADER_SIZE as i128;
                if 0 <= i && i < self.rows.len() as i128 {
                    self.selected = self.rows[i as usize].node;
                }
                Ok(())
            },
            ViewEvent::Other => Ok(()),
        }
    }
}

} // verus!
