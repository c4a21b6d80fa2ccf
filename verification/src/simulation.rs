//! Games as they are recorded for training: a position for every move that
//! was played, each with the search's visit counts, and the board on which the
//! game stopped.

use vstd::prelude::*;
use crate::board::{lemma_replay_push, playable, replay, Board, OutcomeTriple};

verus! {

/// The sum of a run of counts.
pub open spec fn total_of(counts: Seq<u64>) -> nat
    decreases counts.len(),
{
    if counts.len() == 0 {
        0
    } else {
        total_of(counts.drop_last()) + counts.last() as nat
    }
}

/// No count is greater than the sum of all of them.
pub proof fn lemma_count_within_total(counts: Seq<u64>, i: int)
    requires
        0 <= i < counts.len(),
    ensures
        counts[i] <= total_of(counts),
    decreases counts.len(),
{
    if i < counts.len() - 1 {
        lemma_count_within_total(counts.drop_last(), i);
    }
}

/// The sum of the counts before position `k` never exceeds the sum of all.
pub proof fn lemma_total_of_prefix(counts: Seq<u64>, k: int)
    requires
        0 <= k <= counts.len(),
    ensures
        total_of(counts.take(k)) <= total_of(counts),
    decreases counts.len() - k,
{
    if k == counts.len() {
        assert(counts.take(k) =~= counts);
    } else {
        lemma_total_of_prefix(counts.drop_last(), k);
        assert(counts.drop_last().take(k) =~= counts.take(k));
    }
}

/// Why a run of visit counts is no distribution.
#[derive(Clone, Copy, Debug, PartialEq, Eq, Structural)]
pub enum DistributionError {
    /// Every count is zero, or there is none.
    NoVisits,
    /// The counts add up to more than a `u64` holds.
    TooManyVisits,
}

/// A probability distribution over the moves of a position, as exact
/// fractions: move `i` has probability `counts[i] / total`, where `total` is
/// the sum of the counts and is not zero.
#[derive(Debug, PartialEq, Eq)]
pub struct VisitDistribution {
    counts: Vec<u64>,
    total: u64,
}

impl VisitDistribution {
    #[verifier::type_invariant]
    spec fn well_formed(self) -> bool {
        self.is_distribution()
    }

    /// The denominator is the sum of the numerators and is not zero, so that
    /// the fractions are probabilities that add up to one.
    pub closed spec fn is_distribution(&self) -> bool {
        self.total == total_of(self.counts@) && self.total > 0
    }

    /// The numerators, one for each move.
    pub closed spec fn counts_spec(&self) -> Seq<u64> {
        self.counts@
    }

    /// The common denominator.
    pub closed spec fn total_spec(&self) -> nat {
        self.total as nat
    }

    /// Renormalises visit counts: every move keeps its count as numerator
    /// and the sum of all counts becomes the denominator.
    pub fn from_counts(counts: Vec<u64>) -> (r: Result<VisitDistribution, DistributionError>)
        ensures
            match r {
                Ok(d) => d.is_distribution() && d.counts_spec() == counts@ && d.total_spec()
                    == total_of(counts@) && 0 < total_of(counts@) <= u64::MAX,
                Err(DistributionError::NoVisits) => total_of(counts@) == 0,
                Err(DistributionError::TooManyVisits) => total_of(counts@) > u64::MAX,
            },
    {
        let mut total: u64 = 0;
        let mut i: usize = 0;
        while i < counts.len()
            invariant
                i <= counts.len(),
                total == total_of(counts@.take(i as int)),
            decreases counts.len() - i,
        {
            let ghost before = counts@.take(i as int);
            let ghost after = counts@.take(i + 1);
            assert(after.drop_last() =~= before);
            if counts[i] > u64::MAX - total {
                proof {
                    lemma_total_of_prefix(counts@, i + 1);
                }
                return Err(DistributionError::TooManyVisits);
            }
            total = total + counts[i];
            i = i + 1;
        }
        assert(counts@.take(i as int) =~= counts@);
        if total == 0 {
            Err(DistributionError::NoVisits)
        } else {
            Ok(VisitDistribution { counts, total })
        }
    }

    /// A distribution's numerators add up to its denominator, which is not
    /// zero.
    pub proof fn lemma_distribution(self)
        requires
            self.is_distribution(),
        ensures
            self.total_spec() == total_of(self.counts_spec()),
            self.total_spec() > 0,
    {
    }

    /// A copy of this distribution.
    pub fn duplicate(&self) -> (r: VisitDistribution)
        ensures
            r.is_distribution(),
            r.counts_spec() == self.counts_spec(),
            r.total_spec() == self.total_spec(),
    {
        proof {
            use_type_invariant(self);
        }
        let counts = self.counts.clone();
        assert(counts@ =~= self.counts@);
        VisitDistribution { counts, total: self.total }
    }

    /// The number of moves.
    pub fn len(&self) -> (r: usize)
        ensures
            r == self.counts_spec().len(),
    {
        self.counts.len()
    }

    /// The numerators, one for each move.
    pub fn counts(&self) -> (r: &Vec<u64>)
        ensures
            r@ == self.counts_spec(),
    {
        &self.counts
    }

    /// The numerator of move `i`.
    pub fn count(&self, i: usize) -> (r: u64)
        requires
            i < self.counts_spec().len(),
        ensures
            self.is_distribution(),
            r == self.counts_spec()[i as int],
            r <= self.total_spec(),
    {
        proof {
            use_type_invariant(self);
            lemma_count_within_total(self.counts@, i as int);
        }
        self.counts[i]
    }

    /// The denominator: the sum of all numerators, never zero.
    pub fn total(&self) -> (r: u64)
        ensures
            self.is_distribution(),
            r == self.total_spec(),
            r == total_of(self.counts_spec()),
            r > 0,
    {
        proof {
            use_type_invariant(self);
        }
        self.total
    }
}

/// One move of a recorded game.
pub struct Position<B: Board, E> {
    /// The board on which the move was chosen.
    pub board: B,
    /// The move that was played.
    pub played_mv: B::Move,
    /// Whether the search ran with its full budget.
    pub is_full_search: bool,
    /// The number of visits the search made.
    pub zero_visits: u64,
    /// The search's policy over the available moves.
    pub search_policy: VisitDistribution,
    /// The values the search arrived at.
    pub zero_evaluation: E,
    /// The values the network gave.
    pub net_evaluation: E,
}

/// What is recorded with a move besides the board and the move itself.
#[derive(Debug, PartialEq, Eq)]
pub struct MoveRecord<E> {
    pub is_full_search: bool,
    pub zero_visits: u64,
    pub search_policy: VisitDistribution,
    pub zero_evaluation: E,
    pub net_evaluation: E,
}

/// Why a move was not recorded.
#[derive(Clone, Copy, Debug, PartialEq, Eq, Structural)]
pub enum RecordError {
    /// The game is over.
    BoardDone,
    /// The policy does not have one entry for each available move.
    PolicyLengthMismatch,
    /// The move is not available on the board.
    UnavailableMove,
}

/// The reason why `mv` with a policy of `policy_len` entries cannot be
/// recorded on `board`, or `None` if it can.
pub open spec fn record_error<B: Board>(board: B, mv: B::Move, policy_len: nat) -> Option<
    RecordError,
> {
    if board.outcome_spec().is_some() {
        Some(RecordError::BoardDone)
    } else if policy_len != board.move_count_spec() {
        Some(RecordError::PolicyLengthMismatch)
    } else if !board.available_spec(mv) {
        Some(RecordError::UnavailableMove)
    } else {
        None
    }
}

/// A game in the order in which it was played, and the board it stopped on.
pub struct Simulation<B: Board, E> {
    positions: Vec<Position<B, E>>,
    final_board: B,
}

impl<B: Board, E> Simulation<B, E> {
    /// The positions, in the order in which their moves were played.
    pub closed spec fn positions_spec(&self) -> Seq<Position<B, E>> {
        self.positions@
    }

    /// The board on which the game stopped.
    pub closed spec fn final_board_spec(&self) -> B {
        self.final_board
    }

    /// The moves that were played, in order.
    pub open spec fn moves_spec(&self) -> Seq<B::Move> {
        Seq::new(self.positions_spec().len(), |i: int| self.positions_spec()[i].played_mv)
    }

    /// The board on which the game began.
    pub open spec fn start_spec(&self) -> B {
        if self.positions_spec().len() == 0 {
            self.final_board_spec()
        } else {
            self.positions_spec()[0].board
        }
    }

    /// What holds of every recorded game: each position shows the board that
    /// the moves before it lead to, each move was available on its board,
    /// each policy has one entry for each available move, and the final board
    /// is where all the moves lead.
    pub open spec fn well_formed(&self) -> bool {
        &&& forall|i: int|
            0 <= i < self.positions_spec().len() ==> (#[trigger] self.positions_spec()[i]).board
                == replay(self.start_spec(), self.moves_spec().take(i))
        &&& forall|i: int|
            0 <= i < self.positions_spec().len() ==> (#[trigger] self.positions_spec()[i]).search_policy.counts_spec().len()
                == self.positions_spec()[i].board.move_count_spec()
        &&& forall|i: int|
            0 <= i < self.positions_spec().len() ==> (#[trigger] self.positions_spec()[i]).search_policy.is_distribution()
        &&& playable(self.start_spec(), self.moves_spec())
        &&& self.final_board_spec() == replay(self.start_spec(), self.moves_spec())
    }

    #[verifier::type_invariant]
    spec fn always_well_formed(self) -> bool {
        self.well_formed()
    }

    /// A game in which no move has been played yet.
    pub fn new(start: B) -> (r: Simulation<B, E>)
        ensures
            r.well_formed(),
            r.positions_spec().len() == 0,
            r.final_board_spec() == start,
    {
        let positions: Vec<Position<B, E>> = Vec::new();
        assert(Seq::new(positions@.len(), |i: int| positions@[i].played_mv) =~= Seq::<
            B::Move,
        >::empty());
        Simulation { positions, final_board: start }
    }

    /// Records that `mv` was played on the current board, with what the
    /// search found there, and moves on to the board after it. On an error
    /// nothing is recorded.
    pub fn record(&mut self, mv: B::Move, found: MoveRecord<E>) -> (r: Result<(), RecordError>)
        ensures
            final(self).well_formed(),
            match r {
                Ok(()) => {
                    &&& record_error(
                        old(self).final_board_spec(),
                        mv,
                        found.search_policy.counts_spec().len(),
                    ).is_none()
                    &&& final(self).positions_spec() == old(self).positions_spec().push(
                        Position {
                            board: old(self).final_board_spec(),
                            played_mv: mv,
                            is_full_search: found.is_full_search,
                            zero_visits: found.zero_visits,
                            search_policy: found.search_policy,
                            zero_evaluation: found.zero_evaluation,
                            net_evaluation: found.net_evaluation,
                        },
                    )
                    &&& final(self).final_board_spec() == old(self).final_board_spec().play_spec(mv)
                    &&& final(self).start_spec() == old(self).start_spec()
                },
                Err(e) => {
                    &&& record_error(
                        old(self).final_board_spec(),
                        mv,
                        found.search_policy.counts_spec().len(),
                    ) == Some(e)
                    &&& final(self).positions_spec() == old(self).positions_spec()
                    &&& final(self).final_board_spec() == old(self).final_board_spec()
                },
            },
    {
        proof {
            use_type_invariant(&*self);
            use_type_invariant(&found.search_policy);
        }
        if self.final_board.outcome().is_some() {
            return Err(RecordError::BoardDone);
        }
        if found.search_policy.len() != self.final_board.move_count() {
            return Err(RecordError::PolicyLengthMismatch);
        }
        let next = match self.final_board.clone_and_play(mv) {
            Ok(next) => next,
            Err(_) => {
                return Err(RecordError::UnavailableMove);
            },
        };
        let ghost start = self.start_spec();
        let ghost moves = self.moves_spec();
        let ghost before = self.positions@;
        let ghost after = moves.push(mv);
        // The game so far is taken out, and a game that begins on the next
        // board is left in its place until the positions are put back.
        let empty: Vec<Position<B, E>> = Vec::new();
        assert(Seq::new(empty@.len(), |i: int| empty@[i].played_mv) =~= Seq::<B::Move>::empty());
        let mut played = Simulation { positions: empty, final_board: next };
        core::mem::swap(self, &mut played);
        let mut positions = played.positions;
        positions.push(
            Position {
                board: played.final_board,
                played_mv: mv,
                is_full_search: found.is_full_search,
                zero_visits: found.zero_visits,
                search_policy: found.search_policy,
                zero_evaluation: found.zero_evaluation,
                net_evaluation: found.net_evaluation,
            },
        );
        proof {
            let shown = Seq::new(positions@.len(), |i: int| positions@[i].played_mv);
            assert(shown =~= after);
            lemma_replay_push(start, moves, mv);
            assert(after.take(moves.len() as int) =~= moves);
            assert(positions@[0].board == start);
            assert forall|i: int| 0 <= i < positions@.len() implies (#[trigger] positions@[i]).board
                == replay(start, after.take(i)) by {
                if i < before.len() {
                    assert(after.take(i) =~= moves.take(i));
                    assert(positions@[i] == before[i]);
                }
            }
            assert forall|i: int| 0 <= i < after.len() implies {
                let b = #[trigger] replay(start, after.take(i));
                b.outcome_spec().is_none() && b.available_spec(after[i])
            } by {
                if i < moves.len() {
                    assert(after.take(i) =~= moves.take(i));
                }
            }
        }
        self.positions = positions;
        Ok(())
    }

    /// The number of moves played.
    pub fn len(&self) -> (r: usize)
        ensures
            self.well_formed(),
            r == self.positions_spec().len(),
    {
        proof {
            use_type_invariant(self);
        }
        self.positions.len()
    }

    /// The positions, in the order in which their moves were played.
    pub fn positions(&self) -> (r: &Vec<Position<B, E>>)
        ensures
            self.well_formed(),
            r@ == self.positions_spec(),
    {
        proof {
            use_type_invariant(self);
        }
        &self.positions
    }

    /// The board on which the game stopped.
    pub fn final_board(&self) -> (r: &B)
        ensures
            self.well_formed(),
            *r == self.final_board_spec(),
    {
        proof {
            use_type_invariant(self);
        }
        &self.final_board
    }

    /// The outcome to be written with every position of the game: the final
    /// board's own outcome as three flags, or `None` if the game was stopped
    /// before its end.
    pub fn outcome(&self) -> (r: Option<OutcomeTriple>)
        ensures
            r == match self.final_board_spec().outcome_spec() {
                Some(o) => Some(o.triple_spec()),
                None => None,
            },
    {
        match self.final_board.outcome() {
            Some(o) => Some(o.to_triple()),
            None => None,
        }
    }
}

/// Playing the recorded moves in order from the first board of a recorded
/// game leads to its final board, and on the way to the board of every
/// position.
pub proof fn lemma_replay_reaches_final_board<B: Board, E>(sim: Simulation<B, E>)
    requires
        sim.well_formed(),
    ensures
        replay(sim.start_spec(), sim.moves_spec()) == sim.final_board_spec(),
        forall|i: int|
            0 <= i < sim.positions_spec().len() ==> replay(
                sim.start_spec(),
                sim.moves_spec().take(i),
            ) == (#[trigger] sim.positions_spec()[i]).board,
{
}

/// The policy of every recorded position is a distribution over the moves of
/// its board: one entry for each available move, no entry above the common
/// denominator, and the entries add up to the denominator, which is not zero.
pub proof fn lemma_policy_is_distribution<B: Board, E>(sim: Simulation<B, E>, i: int, k: int)
    requires
        sim.well_formed(),
        0 <= i < sim.positions_spec().len(),
        0 <= k < sim.positions_spec()[i].search_policy.counts_spec().len(),
    ensures
        sim.positions_spec()[i].search_policy.counts_spec().len()
            == sim.positions_spec()[i].board.move_count_spec(),
        0 <= sim.positions_spec()[i].search_policy.counts_spec()[k]
            <= sim.positions_spec()[i].search_policy.total_spec(),
        sim.positions_spec()[i].search_policy.total_spec() == total_of(
            sim.positions_spec()[i].search_policy.counts_spec(),
        ),
        sim.positions_spec()[i].search_policy.total_spec() > 0,
{
    sim.positions_spec()[i].search_policy.lemma_distribution();
    lemma_count_within_total(sim.positions_spec()[i].search_policy.counts_spec(), k);
}

} // verus!
