use kzero::board::{Board, Outcome, OutcomeTriple, PlayError, Player, TallyBoard};
use kzero::simulation::{
    DistributionError, MoveRecord, RecordError, Simulation, VisitDistribution,
};

fn policy(counts: &[u64]) -> VisitDistribution {
    VisitDistribution::from_counts(counts.to_vec()).unwrap()
}

fn found(counts: &[u64]) -> MoveRecord<&'static str> {
    MoveRecord {
        is_full_search: true,
        zero_visits: counts.iter().sum(),
        search_policy: policy(counts),
        zero_evaluation: "zero",
        net_evaluation: "net",
    }
}

fn probabilities(policy: &VisitDistribution) -> Vec<f64> {
    (0..policy.len()).map(|i| policy.count(i) as f64 / policy.total() as f64).collect()
}

#[test]
fn visit_counts_are_renormalised_exactly() {
    let d = policy(&[1, 0, 3]);
    assert_eq!(d.len(), 3);
    assert_eq!(d.total(), 4);
    assert_eq!(d.counts(), &vec![1, 0, 3]);
    assert_eq!(d.count(2), 3);
    assert_eq!(probabilities(&d), vec![0.25, 0.0, 0.75]);
}

#[test]
fn probabilities_are_non_negative_and_sum_to_one() {
    for counts in [vec![7u64], vec![1, 2, 3, 4], vec![0, 0, 9], vec![3, 3, 3], vec![u64::MAX]] {
        let d = policy(&counts);
        let p = probabilities(&d);
        assert!(p.iter().all(|&x| (0.0..=1.0).contains(&x)));
        assert!((p.iter().sum::<f64>() - 1.0).abs() < 1e-5);
        let numerators: u128 = (0..d.len()).map(|i| d.count(i) as u128).sum();
        assert_eq!(numerators, d.total() as u128);
    }
}

#[test]
fn counts_that_are_no_distribution() {
    assert_eq!(VisitDistribution::from_counts(vec![]), Err(DistributionError::NoVisits));
    assert_eq!(VisitDistribution::from_counts(vec![0, 0]), Err(DistributionError::NoVisits));
    assert_eq!(
        VisitDistribution::from_counts(vec![u64::MAX, 1]),
        Err(DistributionError::TooManyVisits)
    );
    assert_eq!(
        VisitDistribution::from_counts(vec![1, u64::MAX, 0]),
        Err(DistributionError::TooManyVisits)
    );
    assert!(VisitDistribution::from_counts(vec![u64::MAX - 1, 1]).is_ok());
}

#[test]
fn a_copy_is_the_same_distribution() {
    let d = policy(&[2, 5]);
    assert_eq!(d.duplicate(), d);
}

#[test]
fn a_game_is_recorded_move_by_move() {
    let start = TallyBoard::new(2, 2);
    let mut sim: Simulation<TallyBoard, &str> = Simulation::new(start);
    assert_eq!(sim.len(), 0);
    assert_eq!(sim.final_board(), &start);
    assert_eq!(sim.outcome(), None);
    assert_eq!(sim.record(1, found(&[1, 3])), Ok(()));
    assert_eq!(sim.record(0, found(&[4, 0])), Ok(()));
    assert_eq!(sim.len(), 2);
    let positions = sim.positions();
    assert_eq!(positions[0].board, start);
    assert_eq!(positions[0].played_mv, 1);
    assert_eq!(positions[0].search_policy, policy(&[1, 3]));
    assert_eq!(positions[0].zero_visits, 4);
    assert!(positions[0].is_full_search);
    assert_eq!(positions[0].zero_evaluation, "zero");
    assert_eq!(positions[0].net_evaluation, "net");
    assert_eq!(positions[1].board, TallyBoard { remaining: 1, width: 2, tally: 1 });
    assert_eq!(positions[1].played_mv, 0);
    assert_eq!(sim.final_board(), &TallyBoard { remaining: 0, width: 2, tally: 1 });
}

#[test]
fn replaying_the_moves_reproduces_the_final_board() {
    let start = TallyBoard::new(5, 4);
    let mut sim: Simulation<TallyBoard, &str> = Simulation::new(start);
    for mv in [3u8, 0, 2, 2, 1] {
        sim.record(mv, found(&[1, 1, 1, 1])).unwrap();
    }
    let mut board = start;
    for position in sim.positions() {
        assert_eq!(position.board, board);
        board = board.clone_and_play(position.played_mv).unwrap();
    }
    assert_eq!(&board, sim.final_board());
}

#[test]
fn every_policy_has_one_entry_for_each_move_of_its_board() {
    let mut sim: Simulation<TallyBoard, &str> = Simulation::new(TallyBoard::new(3, 3));
    sim.record(0, found(&[5, 0, 0])).unwrap();
    sim.record(2, found(&[1, 1, 8])).unwrap();
    for position in sim.positions() {
        assert_eq!(position.search_policy.len(), position.board.move_count());
    }
}

#[test]
fn the_recorded_outcome_is_the_final_board_s() {
    for (last, outcome) in [
        (0u8, Outcome::Draw),
        (1, Outcome::WonBy(Player::A)),
        (2, Outcome::WonBy(Player::B)),
    ] {
        let mut sim: Simulation<TallyBoard, &str> = Simulation::new(TallyBoard::new(1, 3));
        sim.record(last, found(&[1, 1, 1])).unwrap();
        assert_eq!(sim.final_board().outcome(), Some(outcome));
        assert_eq!(sim.outcome(), Some(outcome.to_triple()));
    }
    let mut stopped: Simulation<TallyBoard, &str> = Simulation::new(TallyBoard::new(2, 3));
    stopped.record(0, found(&[1, 1, 1])).unwrap();
    assert_eq!(stopped.outcome(), None);
    let over: Simulation<TallyBoard, &str> = Simulation::new(TallyBoard::new(0, 3));
    assert_eq!(over.outcome(), Some(OutcomeTriple { win_a: false, draw: true, win_b: false }));
}

#[test]
fn what_cannot_be_recorded_leaves_the_game_as_it_was() {
    let start = TallyBoard::new(1, 2);
    let mut sim: Simulation<TallyBoard, &str> = Simulation::new(start);
    assert_eq!(sim.record(0, found(&[1])), Err(RecordError::PolicyLengthMismatch));
    assert_eq!(sim.record(0, found(&[1, 1, 1])), Err(RecordError::PolicyLengthMismatch));
    assert_eq!(sim.record(2, found(&[1, 1])), Err(RecordError::UnavailableMove));
    assert_eq!(sim.record(2, found(&[1])), Err(RecordError::PolicyLengthMismatch));
    assert_eq!(sim.len(), 0);
    assert_eq!(sim.final_board(), &start);
    assert_eq!(sim.record(1, found(&[1, 1])), Ok(()));
    assert_eq!(sim.record(0, found(&[1, 1])), Err(RecordError::BoardDone));
    assert_eq!(sim.record(7, found(&[1])), Err(RecordError::BoardDone));
    assert_eq!(sim.len(), 1);
    assert_eq!(start.clone_and_play(2), Err(PlayError::UnavailableMove));
}
