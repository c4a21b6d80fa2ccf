use kzero::board::{Board, Outcome, TallyBoard};
use kzero::channel::{BoundedQueue, Mailbox};
use kzero::collector::{Collector, CollectorAction, ShardSummary};
use kzero::commander::{Commander, CommanderAction, ControlEvent};
use kzero::executor::{
    advance_move, ActiveSettings, GatherResult, MoveSettings, Searched, SlotState, TreeSlot,
};
use kzero::generator::uniform_policy;
use kzero::inference::{BatchAssembler, BatchStep, GraphState};
use kzero::protocol::{Command, GeneratorUpdate, GraphMessage};
use kzero::simulation::Simulation;
use rand::rngs::StdRng;
use rand::SeedableRng;

type Game = Simulation<TallyBoard, ()>;

/// Plays one game of a worker whose network is the uniform dummy.
fn play_with_dummy_network(start: TallyBoard, visits_per_move: u64, rng: &mut StdRng) -> Game {
    let mut game: Game = Simulation::new(start);
    let mut slot = TreeSlot::new(visits_per_move);
    let settings = MoveSettings {
        zero_temp_move_count: 0,
        temperature_is_zero: true,
        max_game_length: None,
        next_budget: visits_per_move,
    };
    loop {
        while slot.state() == SlotState::Searching {
            slot.gathered(GatherResult::Request).unwrap();
            slot.replied().unwrap();
        }
        let uniform = uniform_policy(game.final_board().move_count()).unwrap();
        let searched = Searched {
            visits: uniform.counts().clone(),
            is_full_search: true,
            zero_evaluation: (),
            net_evaluation: (),
            resigned: false,
        };
        if advance_move(&mut game, &mut slot, searched, settings, rng).unwrap().end.is_some() {
            return game;
        }
    }
}

#[test]
fn three_one_move_games_fill_exactly_one_shard() {
    let mut rng = StdRng::seed_from_u64(1);
    let mut collector = Collector::new(3, 0);
    let mut shards: Vec<(u64, Vec<Game>)> = Vec::new();
    let mut open: Vec<Game> = Vec::new();
    for _ in 0..3 {
        let game = play_with_dummy_network(TallyBoard::new(1, 1), 4, &mut rng);
        match collector.on_update(GeneratorUpdate::Simulation(game)).unwrap() {
            CollectorAction::Append { shard, simulation, seal } => {
                open.push(simulation);
                if seal {
                    shards.push((shard, std::mem::take(&mut open)));
                }
            }
            _ => panic!("a game is appended"),
        }
    }
    match collector.on_update(GeneratorUpdate::<Game>::Done).unwrap() {
        CollectorAction::Finish { last_shard } => assert_eq!(last_shard, None::<ShardSummary>),
        _ => panic!("done finishes"),
    }
    assert_eq!(shards.len(), 1);
    let (index, games) = &shards[0];
    assert_eq!(*index, 0);
    assert_eq!(games.len(), 3);
    for game in games {
        assert_eq!(game.len(), 1);
        let position = &game.positions()[0];
        let policy = &position.search_policy;
        let distribution: Vec<f32> =
            (0..policy.len()).map(|i| policy.count(i) as f32 / policy.total() as f32).collect();
        assert_eq!(distribution, vec![1.0]);
        assert_eq!(position.zero_visits, 4);
        assert_eq!(game.final_board().outcome(), Some(Outcome::Draw));
        assert_eq!(game.outcome(), Some(Outcome::Draw.to_triple()));
    }
}

#[test]
fn settings_travel_from_the_controller_to_the_next_move() {
    let mut commander = Commander::new();
    let mut mailboxes: Vec<Mailbox<u32>> = vec![Mailbox::new(), Mailbox::new()];
    let mut workers: Vec<ActiveSettings<u32>> = vec![ActiveSettings::new(0), ActiveSettings::new(0)];
    for settings in [10u32, 20] {
        match commander.handle(ControlEvent::Command(Command::NewSettings(settings))) {
            Ok(CommanderAction::BroadcastSettings(s)) => {
                for mailbox in mailboxes.iter_mut() {
                    mailbox.post(s);
                }
            }
            _ => panic!("settings are broadcast"),
        }
    }
    // The first worker reaches a move boundary, the second is still searching.
    assert!(workers[0].at_move_boundary(&mut mailboxes[0]));
    assert_eq!(*workers[0].current(), 20);
    assert_eq!(*workers[1].current(), 0);
    assert!(workers[1].at_move_boundary(&mut mailboxes[1]));
    assert_eq!(*workers[1].current(), 20);
}

#[test]
fn no_request_is_lost_between_workers_and_inference() {
    let mut queue: BoundedQueue<u32> = BoundedQueue::new(4);
    let mut batch: BatchAssembler<u32> = BatchAssembler::new(2);
    let mut graph: GraphState<&str> = GraphState::new();
    let mut graphs: Mailbox<GraphMessage<&str>> = Mailbox::new();
    let mut answered: Vec<(u32, &str)> = Vec::new();
    let mut next = 0;
    for round in 0..6 {
        if round % 2 == 0 {
            graphs.post(GraphMessage::Network(["a", "b", "c"][round / 2]));
        }
        while queue.try_push(next).is_ok() {
            next += 1;
        }
        graph.at_batch_boundary(&mut graphs);
        loop {
            match batch.step() {
                BatchStep::Evaluate => break,
                _ => match queue.pop() {
                    Some(request) => batch.add(request).unwrap(),
                    None => batch.nothing_pending(),
                },
            }
        }
        for request in batch.take().unwrap() {
            answered.push((request, graph.network().copied().unwrap()));
        }
    }
    let requests: Vec<u32> = answered.iter().map(|a| a.0).collect();
    assert_eq!(requests, (0..12).collect::<Vec<u32>>());
    let networks: Vec<&str> = answered.iter().map(|a| a.1).collect();
    assert_eq!(networks, vec!["a", "a", "a", "a", "b", "b", "b", "b", "c", "c", "c", "c"]);
}
