//! Games without a search: every move is either one that a solver found
//! best or, where the solver found nothing, any available move. Such games
//! warm up a network before it can guide a search of its own.

use rand::rngs::StdRng;
use vstd::prelude::*;
use crate::board::{Board, OutcomeWDL};
use crate::random::random_below;
use crate::simulation::{total_of, MoveRecord, RecordError, Simulation, VisitDistribution};

verus! {

/// What a solver found out about a position, from the point of view of the
/// player to move.
#[derive(Clone, Copy, Debug, PartialEq, Eq, Structural)]
pub enum SolverValue {
    WinIn(u32),
    LossIn(u32),
    Draw,
    Unknown,
}

impl SolverValue {
    /// The outcome that a solver's value stands for, if it stands for one.
    pub open spec fn outcome_spec(self) -> Option<OutcomeWDL> {
        match self {
            SolverValue::WinIn(_) => Some(OutcomeWDL::Win),
            SolverValue::LossIn(_) => Some(OutcomeWDL::Loss),
            SolverValue::Draw => Some(OutcomeWDL::Draw),
            SolverValue::Unknown => None,
        }
    }

    /// The outcome that a solver's value stands for, if it stands for one.
    pub fn to_outcome_wdl(self) -> (r: Option<OutcomeWDL>)
        ensures
            r == self.outcome_spec(),
    {
        match self {
            SolverValue::WinIn(_) => Some(OutcomeWDL::Win),
            SolverValue::LossIn(_) => Some(OutcomeWDL::Loss),
            SolverValue::Draw => Some(OutcomeWDL::Draw),
            SolverValue::Unknown => None,
        }
    }
}

/// What a solver says of a position.
#[derive(Debug, PartialEq, Eq)]
pub struct Solution {
    /// The value of the position.
    pub value: SolverValue,
    /// The moves found best, if any were: one flag for each available move,
    /// in the order of the available moves.
    pub best: Option<Vec<bool>>,
}

/// The values recorded with a position.
#[derive(Clone, Copy, Debug, PartialEq, Eq, Structural)]
pub enum TargetValues {
    /// Nothing is known: every outcome is as likely as any other.
    Uniform,
    /// The game is decided, with this outcome for the player to move.
    Decided(OutcomeWDL),
}

/// Something that looks at a position and says which moves are best.
pub trait Solve<B: Board> {
    /// Looks at `board`. Nothing is taken for granted about the answer.
    fn solve(&mut self, board: &B) -> Solution;
}

/// Why a game could not be generated.
#[derive(Clone, Copy, Debug, PartialEq, Eq, Structural)]
pub enum GenerateError {
    /// The solver's flags are not one for each available move.
    BestLengthMismatch,
    /// The solver named best moves and flagged none.
    NoBestMove,
    /// The board has no move though the game is going on.
    NoAvailableMove,
    /// The board refused a move it had offered.
    Record(RecordError),
}

/// The number of flags that are set.
pub open spec fn set_count(flags: Seq<bool>) -> nat
    decreases flags.len(),
{
    if flags.len() == 0 {
        0
    } else {
        set_count(flags.drop_last()) + if flags.last() {
            1nat
        } else {
            0nat
        }
    }
}

/// The counts that stand for a run of flags: one for a set flag, zero for
/// the others.
pub open spec fn flag_counts(flags: Seq<bool>) -> Seq<u64> {
    Seq::new(
        flags.len(),
        |i: int|
            if flags[i] {
                1u64
            } else {
                0u64
            },
    )
}

/// `i` is the place of the set flag that has `k` set flags before it.
pub open spec fn is_nth_set(flags: Seq<bool>, k: nat, i: int) -> bool {
    &&& 0 <= i < flags.len()
    &&& flags[i]
    &&& set_count(flags.take(i)) == k
}

/// The counts of a run of flags add up to the number of set flags.
pub proof fn lemma_flag_counts_total(flags: Seq<bool>)
    ensures
        total_of(flag_counts(flags)) == set_count(flags),
    decreases flags.len(),
{
    if flags.len() > 0 {
        lemma_flag_counts_total(flags.drop_last());
        assert(flag_counts(flags).drop_last() =~= flag_counts(flags.drop_last()));
    }
}

/// There are no more set flags than flags.
pub proof fn lemma_set_count_bound(flags: Seq<bool>)
    ensures
        set_count(flags) <= flags.len(),
    decreases flags.len(),
{
    if flags.len() > 0 {
        lemma_set_count_bound(flags.drop_last());
    }
}

/// The policy that spreads the probability evenly over the moves flagged
/// best. `None` if no move is flagged.
pub fn best_policy(best: &Vec<bool>) -> (r: Option<VisitDistribution>)
    ensures
        r.is_some() <==> set_count(best@) > 0,
        r matches Some(d) ==> d.is_distribution() && d.counts_spec() == flag_counts(best@)
            && d.total_spec() == set_count(best@),
{
    let mut counts: Vec<u64> = Vec::new();
    let mut i: usize = 0;
    while i < best.len()
        invariant
            i <= best@.len(),
            counts@ == flag_counts(best@.take(i as int)),
        decreases best@.len() - i,
    {
        counts.push(
            if best[i] {
                1
            } else {
                0
            },
        );
        assert(counts@ =~= flag_counts(best@.take(i + 1)));
        i = i + 1;
    }
    proof {
        assert(best@.take(i as int) =~= best@);
        lemma_flag_counts_total(best@);
        lemma_set_count_bound(best@);
    }
    match VisitDistribution::from_counts(counts) {
        Ok(d) => Some(d),
        Err(_) => None,
    }
}

/// The policy that gives every one of `n` moves the same probability.
/// `None` if there is no move.
pub fn uniform_policy(n: usize) -> (r: Option<VisitDistribution>)
    ensures
        r.is_some() <==> n > 0,
        r matches Some(d) ==> d.is_distribution() && d.counts_spec() == Seq::new(
            n as nat,
            |i: int| 1u64,
        ) && d.total_spec() == n,
{
    let mut counts: Vec<u64> = Vec::new();
    let mut i: usize = 0;
    while i < n
        invariant
            i <= n,
            counts@ == Seq::new(i as nat, |k: int| 1u64),
            total_of(counts@) == i,
        decreases n - i,
    {
        let ghost before = counts@;
        counts.push(1);
        assert(counts@.drop_last() =~= before);
        assert(counts@ =~= Seq::new((i + 1) as nat, |k: int| 1u64));
        i = i + 1;
    }
    match VisitDistribution::from_counts(counts) {
        Ok(d) => Some(d),
        Err(_) => None,
    }
}

/// The place of the set flag that has `k` set flags before it, or `None` if
/// there are not that many set flags.
pub fn nth_set(flags: &Vec<bool>, k: u64) -> (r: Option<usize>)
    ensures
        match r {
            Some(i) => is_nth_set(flags@, k as nat, i as int),
            None => set_count(flags@) <= k,
        },
{
    let mut seen: u64 = 0;
    let mut i: usize = 0;
    while i < flags.len()
        invariant
            i <= flags@.len(),
            seen == set_count(flags@.take(i as int)),
            seen <= k,
        decreases flags@.len() - i,
    {
        assert(flags@.take(i + 1).drop_last() =~= flags@.take(i as int));
        if flags[i] {
            if seen == k {
                return Some(i);
            }
            seen = seen + 1;
        }
        i = i + 1;
    }
    assert(flags@.take(i as int) =~= flags@);
    None
}

/// What is played and recorded at one position.
#[derive(Debug, PartialEq, Eq)]
pub struct Choice {
    /// The place of the move to play among the available moves.
    pub move_index: usize,
    /// The policy to record.
    pub policy: VisitDistribution,
    /// The values to record as the outcome of the search.
    pub values: TargetValues,
}

/// Chooses the move for a position with `move_count` available moves from
/// what the solver said of it.
///
/// Where the solver named best moves, one of them is drawn, the policy is
/// spread evenly over them, and the recorded value is the solver's, a draw
/// standing in for an unknown one. Otherwise any available move is drawn,
/// and policy and values are uniform.
pub fn choose_move(move_count: usize, solution: &Solution, rng: &mut StdRng) -> (r: Result<Choice, GenerateError>)
    ensures
        match r {
            Ok(c) => {
                &&& c.move_index < move_count
                &&& c.policy.is_distribution()
                &&& c.policy.counts_spec().len() == move_count
                &&& c.policy.counts_spec()[c.move_index as int] == 1
                &&& match solution.best {
                    Some(best) => {
                        &&& best@.len() == move_count
                        &&& best@[c.move_index as int]
                        &&& c.policy.counts_spec() == flag_counts(best@)
                        &&& c.policy.total_spec() == set_count(best@)
                        &&& c.values == TargetValues::Decided(
                            match solution.value.outcome_spec() {
                                Some(o) => o,
                                None => OutcomeWDL::Draw,
                            },
                        )
                    },
                    None => {
                        &&& c.policy.counts_spec() == Seq::new(move_count as nat, |i: int| 1u64)
                        &&& c.policy.total_spec() == move_count
                        &&& c.values == TargetValues::Uniform
                    },
                }
            },
            Err(GenerateError::BestLengthMismatch) => solution.best matches Some(best)
                && best@.len() != move_count,
            Err(GenerateError::NoBestMove) => solution.best matches Some(best) && best@.len()
                == move_count && set_count(best@) == 0,
            Err(GenerateError::NoAvailableMove) => solution.best.is_none() && move_count == 0,
            Err(GenerateError::Record(_)) => false,
        },
{
    match &solution.best {
        Some(best) => {
            if best.len() != move_count {
                return Err(GenerateError::BestLengthMismatch);
            }
            let policy = match best_policy(best) {
                Some(p) => p,
                None => {
                    return Err(GenerateError::NoBestMove);
                },
            };
            let ticket = random_below(rng, policy.total());
            let move_index = match nth_set(best, ticket) {
                Some(i) => i,
                None => {
                    proof {
                        assert(false);
                    }
                    0
                },
            };
            let outcome = match solution.value.to_outcome_wdl() {
                Some(o) => o,
                None => OutcomeWDL::Draw,
            };
            Ok(Choice { move_index, policy, values: TargetValues::Decided(outcome) })
        },
        None => {
            let policy = match uniform_policy(move_count) {
                Some(p) => p,
                None => {
                    return Err(GenerateError::NoAvailableMove);
                },
            };
            let ticket = random_below(rng, move_count as u64);
            Ok(Choice { move_index: ticket as usize, policy, values: TargetValues::Uniform })
        },
    }
}

/// Plays one game from `start`, of at most `max_game_length` moves, and
/// records it. At every position the solver is asked once and `choose_move`
/// decides.
///
/// The game that comes back is well formed and begins at `start`. It is
/// shorter than `max_game_length` only if it has come to its end. Every
/// position is recorded as a full search without visits. The only errors
/// are those of `choose_move`: a solver that flags the wrong number of moves
/// or none, and a board that offers no move.
pub fn generate_game<B: Board, S: Solve<B>>(
    start: B,
    max_game_length: u64,
    solver: &mut S,
    rng: &mut StdRng,
) -> (r: Result<Simulation<B, TargetValues>, GenerateError>)
    ensures
        match r {
            Ok(sim) => {
                &&& sim.well_formed()
                &&& sim.start_spec() == start
                &&& sim.positions_spec().len() <= max_game_length
                &&& sim.positions_spec().len() < max_game_length
                    ==> sim.final_board_spec().outcome_spec().is_some()
                &&& forall|i: int|
                    0 <= i < sim.positions_spec().len() ==> {
                        let p = #[trigger] sim.positions_spec()[i];
                        p.is_full_search && p.zero_visits == 0 && p.net_evaluation
                            == TargetValues::Uniform
                    }
            },
            Err(e) => max_game_length > 0 && start.outcome_spec().is_none() && !(e is Record),
        },
{
    let mut sim: Simulation<B, TargetValues> = Simulation::new(start);
    let mut played: u64 = 0;
    while played < max_game_length
        invariant
            played <= max_game_length,
            sim.well_formed(),
            sim.start_spec() == start,
            sim.positions_spec().len() == played,
            start.outcome_spec().is_some() ==> played == 0,
            forall|i: int|
                0 <= i < sim.positions_spec().len() ==> {
                    let p = #[trigger] sim.positions_spec()[i];
                    p.is_full_search && p.zero_visits == 0 && p.net_evaluation == TargetValues::Uniform
                },
        decreases max_game_length - played,
    {
        if sim.final_board().outcome().is_some() {
            return Ok(sim);
        }
        let move_count = sim.final_board().move_count();
        let solution = solver.solve(sim.final_board());
        let choice = match choose_move(move_count, &solution, rng) {
            Ok(c) => c,
            Err(e) => {
                return Err(e);
            },
        };
        let mv = match sim.final_board().available_move(choice.move_index) {
            Some(mv) => mv,
            None => {
                proof {
                    assert(false);
                }
                return Err(GenerateError::NoAvailableMove);
            },
        };
        let ghost before = sim.positions_spec();
        let found = MoveRecord {
            is_full_search: true,
            zero_visits: 0,
            search_policy: choice.policy,
            zero_evaluation: choice.values,
            net_evaluation: TargetValues::Uniform,
        };
        match sim.record(mv, found) {
            Ok(()) => {},
            Err(e) => {
                proof {
                    assert(false);
                }
                return Err(GenerateError::Record(e));
            },
        }
        proof {
            assert forall|i: int| 0 <= i < sim.positions_spec().len() implies {
                let p = #[trigger] sim.positions_spec()[i];
                p.is_full_search && p.zero_visits == 0 && p.net_evaluation == TargetValues::Uniform
            } by {
                if i < before.len() {
                    assert(sim.positions_spec()[i] == before[i]);
                }
            }
        }
        played = played + 1;
    }
    Ok(sim)
}

} // verus!
