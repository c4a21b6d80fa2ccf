//! Boards of the nodes of a search tree, rebuilt from the root by replaying
//! the moves on the way, and remembered.
//!
//! A tree stores with each node only the move that leads to it. The board of
//! a node is the board of its parent after that move. What has been rebuilt
//! once is kept; the cache has to be cleared when the tree under it changes.

use vstd::prelude::*;
use crate::board::{Board, PlayError};

verus! {

/// How a node hangs in its tree.
#[derive(Debug, PartialEq, Eq)]
pub struct PathNode<M> {
    /// The parent, or `None` for a root.
    pub parent: Option<usize>,
    /// The move that leads from the parent to this node.
    pub last_move: Option<M>,
}

/// Why the board of a node cannot be rebuilt.
#[derive(Clone, Copy, Debug, PartialEq, Eq, Structural)]
pub enum NodeBoardError {
    /// There is no such node.
    NoSuchNode,
    /// A node on the way does not come after its parent.
    ParentNotBefore,
    /// A node on the way has a parent and no move.
    MissingMove,
    /// A move on the way is played on a finished board.
    BoardDone,
    /// A move on the way is not available on its board.
    UnavailableMove,
}

/// The board of `node` in a tree whose roots all show `root`: the root's
/// board for a node without parent, else the board of the parent after the
/// node's move. An error if the way from the root is broken anywhere.
pub open spec fn node_board_spec<B: Board>(nodes: Seq<PathNode<B::Move>>, root: B, node: int) -> Result<
    B,
    NodeBoardError,
>
    decreases node,
{
    if !(0 <= node < nodes.len()) {
        Err(NodeBoardError::NoSuchNode)
    } else {
        match nodes[node].parent {
            None => Ok(root),
            Some(parent) => if parent >= node {
                Err(NodeBoardError::ParentNotBefore)
            } else {
                match node_board_spec(nodes, root, parent as int) {
                    Err(e) => Err(e),
                    Ok(before) => match nodes[node].last_move {
                        None => Err(NodeBoardError::MissingMove),
                        Some(mv) => if before.outcome_spec().is_some() {
                            Err(NodeBoardError::BoardDone)
                        } else if !before.available_spec(mv) {
                            Err(NodeBoardError::UnavailableMove)
                        } else {
                            Ok(before.play_spec(mv))
                        },
                    },
                }
            },
        }
    }
}

/// The boards that have been rebuilt, by node.
pub struct BoardCache<B: Board> {
    boards: Vec<Option<B>>,
}

impl<B: Board> BoardCache<B> {
    /// What is remembered: for each node up to some number, its board or
    /// nothing.
    pub closed spec fn boards_spec(&self) -> Seq<Option<B>> {
        self.boards@
    }

    /// Everything that is remembered is the board of its node in the tree
    /// `nodes` with root board `root`.
    pub open spec fn valid_for(&self, nodes: Seq<PathNode<B::Move>>, root: B) -> bool {
        forall|i: int|
            0 <= i < self.boards_spec().len() ==> ((#[trigger] self.boards_spec()[i]) matches Some(b)
                ==> node_board_spec(nodes, root, i) == Ok::<B, NodeBoardError>(b))
    }

    /// A cache that remembers nothing.
    pub fn new() -> (r: BoardCache<B>)
        ensures
            r.boards_spec().len() == 0,
            forall|nodes: Seq<PathNode<B::Move>>, root: B| r.valid_for(nodes, root),
    {
        BoardCache { boards: Vec::new() }
    }

    /// Forgets everything. To be called when the tree changes under the
    /// cache.
    pub fn clear(&mut self)
        ensures
            final(self).boards_spec().len() == 0,
            forall|nodes: Seq<PathNode<B::Move>>, root: B| final(self).valid_for(nodes, root),
    {
        self.boards.clear();
    }

    fn remember(&mut self, node: usize, board: B)
        requires
            node < usize::MAX,
        ensures
            final(self).boards_spec().len() > node,
            final(self).boards_spec().len() >= old(self).boards_spec().len(),
            final(self).boards_spec()[node as int] == Some(board),
            forall|i: int|
                0 <= i < final(self).boards_spec().len() && i != node
                    ==> #[trigger] final(self).boards_spec()[i] == (if i < old(self).boards_spec().len() {
                    old(self).boards_spec()[i]
                } else {
                    None::<B>
                }),
    {
        while self.boards.len() <= node
            invariant
                self.boards@.len() >= old(self).boards@.len(),
                forall|i: int|
                    0 <= i < self.boards@.len() ==> #[trigger] self.boards@[i] == (if i
                        < old(self).boards@.len() {
                        old(self).boards@[i]
                    } else {
                        None::<B>
                    }),
            decreases node + 1 - self.boards@.len(),
        {
            self.boards.push(None);
        }
        self.boards.set(node, Some(board));
    }

    /// The board of `node`, from the cache or rebuilt from the board of its
    /// parent, which is looked up in the same way. What is rebuilt is
    /// remembered.
    pub fn node_board(&mut self, nodes: &Vec<PathNode<B::Move>>, root: &B, node: usize) -> (r: Result<
        B,
        NodeBoardError,
    >)
        requires
            old(self).valid_for(nodes@, *root),
        ensures
            final(self).valid_for(nodes@, *root),
            r == node_board_spec(nodes@, *root, node as int),
        decreases node,
    {
        if node >= nodes.len() {
            return Err(NodeBoardError::NoSuchNode);
        }
        if node < self.boards.len() {
            match &self.boards[node] {
                Some(board) => {
                    return Ok(board.duplicate());
                },
                None => {},
            }
        }
        let board = match nodes[node].parent {
            None => root.duplicate(),
            Some(parent) => {
                if parent >= node {
                    return Err(NodeBoardError::ParentNotBefore);
                }
                let before = match self.node_board(nodes, root, parent) {
                    Ok(b) => b,
                    Err(e) => {
                        return Err(e);
                    },
                };
                let mv = match nodes[node].last_move {
                    Some(mv) => mv,
                    None => {
                        return Err(NodeBoardError::MissingMove);
                    },
                };
                match before.clone_and_play(mv) {
                    Ok(next) => next,
                    Err(PlayError::BoardDone) => {
                        return Err(NodeBoardError::BoardDone);
                    },
                    Err(PlayError::UnavailableMove) => {
                        return Err(NodeBoardError::UnavailableMove);
                    },
                }
            },
        };
        let copy = board.duplicate();
        self.remember(node, copy);
        Ok(board)
    }
}

/// The board of a node is reached from the board of any node above it by
/// the node's own move: rebuilding never depends on what was remembered.
pub proof fn lemma_node_board_step<B: Board>(nodes: Seq<PathNode<B::Move>>, root: B, node: int)
    requires
        node_board_spec(nodes, root, node).is_ok(),
        0 <= node < nodes.len(),
        nodes[node].parent.is_some(),
    ensures
        nodes[node].last_move.is_some(),
        node_board_spec(nodes, root, nodes[node].parent.unwrap() as int).is_ok(),
        node_board_spec(nodes, root, node).unwrap() == node_board_spec(
            nodes,
            root,
            nodes[node].parent.unwrap() as int,
        ).unwrap().play_spec(nodes[node].last_move.unwrap()),
{
}

} // verus!
