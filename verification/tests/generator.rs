use kzero::board::{Board, OutcomeWDL, TallyBoard};
use kzero::generator::{
    best_policy, choose_move, generate_game, nth_set, uniform_policy, GenerateError, Solution,
    Solve, SolverValue, TargetValues,
};
use rand::rngs::StdRng;
use rand::SeedableRng;

/// Knows nothing.
struct Clueless;

impl Solve<TallyBoard> for Clueless {
    fn solve(&mut self, _board: &TallyBoard) -> Solution {
        Solution { value: SolverValue::Unknown, best: None }
    }
}

/// Finds the last available move best and the game won.
struct LastMove;

impl Solve<TallyBoard> for LastMove {
    fn solve(&mut self, board: &TallyBoard) -> Solution {
        let mut best = vec![false; board.move_count()];
        if let Some(last) = best.last_mut() {
            *last = true;
        }
        Solution { value: SolverValue::WinIn(1), best: Some(best) }
    }
}

/// Answers with a fixed solution, whatever the board.
struct Fixed(SolverValue, Option<Vec<bool>>);

impl Solve<TallyBoard> for Fixed {
    fn solve(&mut self, _board: &TallyBoard) -> Solution {
        Solution { value: self.0, best: self.1.clone() }
    }
}

#[test]
fn solver_values_as_outcomes() {
    assert_eq!(SolverValue::WinIn(3).to_outcome_wdl(), Some(OutcomeWDL::Win));
    assert_eq!(SolverValue::LossIn(0).to_outcome_wdl(), Some(OutcomeWDL::Loss));
    assert_eq!(SolverValue::Draw.to_outcome_wdl(), Some(OutcomeWDL::Draw));
    assert_eq!(SolverValue::Unknown.to_outcome_wdl(), None);
}

#[test]
fn best_policy_spreads_evenly_over_the_best_moves() {
    let policy = best_policy(&vec![false, true, true, false]).unwrap();
    assert_eq!(policy.counts(), &vec![0, 1, 1, 0]);
    assert_eq!(policy.total(), 2);
    let probabilities: Vec<f32> =
        (0..4).map(|i| policy.count(i) as f32 / policy.total() as f32).collect();
    assert_eq!(probabilities, vec![0.0, 0.5, 0.5, 0.0]);
    assert_eq!(best_policy(&vec![false, false]), None);
    assert_eq!(best_policy(&vec![]), None);
}

#[test]
fn uniform_policy_gives_every_move_the_same() {
    let policy = uniform_policy(4).unwrap();
    assert_eq!(policy.counts(), &vec![1, 1, 1, 1]);
    assert_eq!(policy.total(), 4);
    assert_eq!(uniform_policy(1).unwrap().counts(), &vec![1]);
    assert_eq!(uniform_policy(0), None);
}

#[test]
fn nth_set_counts_set_flags_only() {
    let flags = vec![false, true, false, true, true];
    assert_eq!(nth_set(&flags, 0), Some(1));
    assert_eq!(nth_set(&flags, 1), Some(3));
    assert_eq!(nth_set(&flags, 2), Some(4));
    assert_eq!(nth_set(&flags, 3), None);
    assert_eq!(nth_set(&flags, u64::MAX), None);
    assert_eq!(nth_set(&vec![], 0), None);
}

#[test]
fn a_best_move_is_played_where_the_solver_names_one() {
    let mut rng = StdRng::seed_from_u64(3);
    let solution =
        Solution { value: SolverValue::LossIn(4), best: Some(vec![false, false, true]) };
    for _ in 0..20 {
        let choice = choose_move(3, &solution, &mut rng).unwrap();
        assert_eq!(choice.move_index, 2);
        assert_eq!(choice.policy.counts(), &vec![0, 0, 1]);
        assert_eq!(choice.values, TargetValues::Decided(OutcomeWDL::Loss));
    }
    let several = Solution { value: SolverValue::Unknown, best: Some(vec![true, false, true]) };
    let mut seen = [false; 3];
    for _ in 0..100 {
        let choice = choose_move(3, &several, &mut rng).unwrap();
        seen[choice.move_index] = true;
        assert_eq!(choice.values, TargetValues::Decided(OutcomeWDL::Draw));
        assert_eq!(choice.policy.total(), 2);
    }
    assert_eq!(seen, [true, false, true]);
}

#[test]
fn any_move_is_played_where_the_solver_names_none() {
    let mut rng = StdRng::seed_from_u64(11);
    let solution = Solution { value: SolverValue::WinIn(1), best: None };
    let mut seen = [false; 4];
    for _ in 0..200 {
        let choice = choose_move(4, &solution, &mut rng).unwrap();
        assert!(choice.move_index < 4);
        seen[choice.move_index] = true;
        assert_eq!(choice.policy.counts(), &vec![1, 1, 1, 1]);
        assert_eq!(choice.values, TargetValues::Uniform);
    }
    assert_eq!(seen, [true; 4]);
    assert_eq!(choose_move(1, &solution, &mut rng).unwrap().move_index, 0);
}

#[test]
fn bad_solutions_are_refused() {
    let mut rng = StdRng::seed_from_u64(0);
    let short = Solution { value: SolverValue::Draw, best: Some(vec![true]) };
    assert_eq!(choose_move(2, &short, &mut rng), Err(GenerateError::BestLengthMismatch));
    let none = Solution { value: SolverValue::Draw, best: Some(vec![false, false]) };
    assert_eq!(choose_move(2, &none, &mut rng), Err(GenerateError::NoBestMove));
    let empty = Solution { value: SolverValue::Draw, best: Some(vec![]) };
    assert_eq!(choose_move(0, &empty, &mut rng), Err(GenerateError::NoBestMove));
    let nothing = Solution { value: SolverValue::Draw, best: None };
    assert_eq!(choose_move(0, &nothing, &mut rng), Err(GenerateError::NoAvailableMove));
}

#[test]
fn a_game_is_played_to_its_end() {
    let mut rng = StdRng::seed_from_u64(5);
    let start = TallyBoard::new(4, 3);
    let sim = generate_game(start, 100, &mut Clueless, &mut rng).unwrap();
    assert_eq!(sim.len(), 4);
    assert!(sim.final_board().outcome().is_some());
    let mut board = start;
    for position in sim.positions() {
        assert_eq!(position.board, board);
        assert!(position.is_full_search);
        assert_eq!(position.zero_visits, 0);
        assert_eq!(position.search_policy.counts(), &vec![1, 1, 1]);
        assert_eq!(position.zero_evaluation, TargetValues::Uniform);
        assert_eq!(position.net_evaluation, TargetValues::Uniform);
        board = board.clone_and_play(position.played_mv).unwrap();
    }
    assert_eq!(&board, sim.final_board());
}

#[test]
fn a_game_stops_at_the_greatest_length() {
    let mut rng = StdRng::seed_from_u64(5);
    let sim = generate_game(TallyBoard::new(10, 2), 3, &mut LastMove, &mut rng).unwrap();
    assert_eq!(sim.len(), 3);
    assert_eq!(sim.final_board().outcome(), None);
    assert_eq!(sim.outcome(), None);
    for position in sim.positions() {
        assert_eq!(position.played_mv, 1);
        assert_eq!(position.search_policy.counts(), &vec![0, 1]);
        assert_eq!(position.zero_evaluation, TargetValues::Decided(OutcomeWDL::Win));
        assert_eq!(position.net_evaluation, TargetValues::Uniform);
    }
    assert_eq!(sim.final_board(), &TallyBoard { remaining: 7, width: 2, tally: 0 });
}

#[test]
fn no_game_is_played_from_a_finished_board_or_without_moves_allowed() {
    let mut rng = StdRng::seed_from_u64(5);
    let mut broken = Fixed(SolverValue::Draw, Some(vec![]));
    let over = generate_game(TallyBoard::new(0, 2), 10, &mut broken, &mut rng).unwrap();
    assert_eq!(over.len(), 0);
    let none = generate_game(TallyBoard::new(5, 2), 0, &mut broken, &mut rng).unwrap();
    assert_eq!(none.len(), 0);
    assert_eq!(none.final_board(), &TallyBoard::new(5, 2));
}

#[test]
fn a_bad_solver_stops_the_game() {
    let mut rng = StdRng::seed_from_u64(5);
    let mut short = Fixed(SolverValue::Draw, Some(vec![true]));
    assert_eq!(
        generate_game(TallyBoard::new(2, 2), 10, &mut short, &mut rng).err(),
        Some(GenerateError::BestLengthMismatch)
    );
    let mut none = Fixed(SolverValue::Draw, Some(vec![false, false]));
    assert_eq!(
        generate_game(TallyBoard::new(2, 2), 10, &mut none, &mut rng).err(),
        Some(GenerateError::NoBestMove)
    );
}
