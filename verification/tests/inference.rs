use kzero::channel::Mailbox;
use kzero::inference::{
    answer_batch, batch_limit, pick_policy, split_rows, stack_rows, BatchAssembler, BatchStep,
    GraphState,
};
use kzero::settings::BatchSizes;
use kzero::protocol::GraphMessage;

#[test]
fn a_batch_waits_for_its_first_request_then_polls() {
    let mut batch: BatchAssembler<u32> = BatchAssembler::new(3);
    assert_eq!(batch.step(), BatchStep::Wait);
    assert_eq!(batch.take(), None);
    assert_eq!(batch.add(1), Ok(()));
    assert_eq!(batch.step(), BatchStep::Poll);
    assert_eq!(batch.take(), None);
    assert_eq!(batch.add(2), Ok(()));
    assert_eq!(batch.step(), BatchStep::Poll);
    assert_eq!(batch.add(3), Ok(()));
    assert_eq!(batch.step(), BatchStep::Evaluate);
    assert_eq!(batch.add(4), Err(4));
    assert_eq!(batch.take(), Some(vec![1, 2, 3]));
    assert_eq!(batch.step(), BatchStep::Wait);
}

#[test]
fn an_empty_channel_closes_a_batch_that_has_a_request() {
    let mut batch: BatchAssembler<u32> = BatchAssembler::new(8);
    batch.nothing_pending();
    assert_eq!(batch.step(), BatchStep::Wait);
    batch.add(5).unwrap();
    batch.nothing_pending();
    assert_eq!(batch.step(), BatchStep::Evaluate);
    assert_eq!(batch.add(6), Err(6));
    assert_eq!(batch.take(), Some(vec![5]));
    assert_eq!(batch.step(), BatchStep::Wait);
    assert_eq!(batch.add(6), Ok(()));
    assert_eq!(batch.step(), BatchStep::Poll);
}

#[test]
fn a_batch_of_one_is_due_at_once() {
    let mut batch: BatchAssembler<&str> = BatchAssembler::new(1);
    batch.add("only").unwrap();
    assert_eq!(batch.step(), BatchStep::Evaluate);
    assert_eq!(batch.take(), Some(vec!["only"]));
}

#[test]
fn a_batch_without_room_is_always_due_and_empty() {
    let mut batch: BatchAssembler<u8> = BatchAssembler::new(0);
    assert_eq!(batch.step(), BatchStep::Evaluate);
    assert_eq!(batch.add(1), Err(1));
    assert_eq!(batch.take(), Some(vec![]));
}

#[test]
fn rows_go_to_requests_by_position() {
    let flat: Vec<f32> = vec![0.0, 0.1, 0.2, 1.0, 1.1, 1.2];
    assert_eq!(split_rows(&flat, 2, 3), Some(vec![vec![0.0, 0.1, 0.2], vec![1.0, 1.1, 1.2]]));
    assert_eq!(
        split_rows(&flat, 3, 2),
        Some(vec![vec![0.0, 0.1], vec![0.2, 1.0], vec![1.1, 1.2]])
    );
    assert_eq!(split_rows(&flat, 6, 1).unwrap().len(), 6);
    assert_eq!(split_rows(&flat, 1, 6), Some(vec![flat.clone()]));
}

#[test]
fn rows_need_the_right_number_of_entries() {
    let flat: Vec<u8> = vec![1, 2, 3, 4, 5, 6];
    assert_eq!(split_rows(&flat, 2, 2), None);
    assert_eq!(split_rows(&flat, 4, 2), None);
    assert_eq!(split_rows(&flat, 0, 6), None);
    assert_eq!(split_rows(&flat, usize::MAX, 2), None);
    assert_eq!(split_rows(&Vec::<u8>::new(), 0, 5), Some(vec![]));
    assert_eq!(split_rows(&Vec::<u8>::new(), 3, 0), Some(vec![vec![], vec![], vec![]]));
}

#[test]
fn policy_is_picked_at_the_indices_of_the_available_moves() {
    let row: Vec<f32> = vec![0.5, 0.25, 0.125, 0.0625];
    assert_eq!(pick_policy(&row, &vec![3, 0, 0]), Some(vec![0.0625, 0.5, 0.5]));
    assert_eq!(pick_policy(&row, &vec![]), Some(vec![]));
    assert_eq!(pick_policy(&row, &vec![0, 4]), None);
    assert_eq!(pick_policy(&Vec::<f32>::new(), &vec![0]), None);
}

#[test]
fn graph_messages_take_effect_and_hand_back_the_old_network() {
    let mut state: GraphState<&str> = GraphState::new();
    assert_eq!(state.network(), None);
    assert_eq!(state.apply(GraphMessage::Network("v1")), None);
    assert_eq!(state.network(), Some(&"v1"));
    assert_eq!(state.apply(GraphMessage::Network("v2")), Some("v1"));
    assert_eq!(state.network(), Some(&"v2"));
    assert_eq!(state.apply(GraphMessage::Dummy), Some("v2"));
    assert_eq!(state.network(), None);
    assert_eq!(state.apply(GraphMessage::Dummy), None);
}

#[test]
fn a_new_network_is_served_from_the_next_batch_on() {
    let mut state: GraphState<u32> = GraphState::new();
    let mut mailbox: Mailbox<GraphMessage<u32>> = Mailbox::new();
    let mut batch: BatchAssembler<u32> = BatchAssembler::new(2);
    let mut served: Vec<(u32, Option<u32>)> = Vec::new();
    let mut next_request = 0;
    for version in 1..=3 {
        mailbox.post(GraphMessage::Network(version));
        // One batch between two reloads.
        state.at_batch_boundary(&mut mailbox);
        while batch.step() != BatchStep::Evaluate {
            batch.add(next_request).unwrap();
            next_request += 1;
        }
        for request in batch.take().unwrap() {
            served.push((request, state.network().copied()));
        }
    }
    assert_eq!(
        served,
        vec![(0, Some(1)), (1, Some(1)), (2, Some(2)), (3, Some(2)), (4, Some(3)), (5, Some(3))]
    );
}

#[test]
fn only_the_newest_waiting_graph_takes_effect() {
    let mut state: GraphState<u32> = GraphState::new();
    let mut mailbox: Mailbox<GraphMessage<u32>> = Mailbox::new();
    assert_eq!(state.at_batch_boundary(&mut mailbox), None);
    assert_eq!(state.network(), None);
    mailbox.post(GraphMessage::Network(1));
    mailbox.post(GraphMessage::Network(2));
    assert_eq!(state.at_batch_boundary(&mut mailbox), None);
    assert_eq!(state.network(), Some(&2));
    assert!(!mailbox.is_waiting());
    assert_eq!(state.at_batch_boundary(&mut mailbox), None);
    assert_eq!(state.network(), Some(&2));
    mailbox.post(GraphMessage::Dummy);
    assert_eq!(state.at_batch_boundary(&mut mailbox), Some(2));
    assert_eq!(state.network(), None);
}

#[test]
fn every_request_gets_the_row_at_its_place() {
    let requests = vec!["first", "second", "third"];
    let flat = vec![1u8, 2, 3, 4, 5, 6];
    assert_eq!(
        answer_batch(requests, &flat, 2),
        Some(vec![("first", vec![1, 2]), ("second", vec![3, 4]), ("third", vec![5, 6])])
    );
    assert_eq!(answer_batch(vec!["one"], &flat, 5), None);
    assert_eq!(answer_batch(vec!["one", "two"], &flat, 2), None);
    assert_eq!(
        answer_batch(Vec::<&str>::new(), &Vec::<u8>::new(), 3),
        Some(vec![])
    );
    assert_eq!(
        answer_batch(vec!["a", "b"], &Vec::<u8>::new(), 0),
        Some(vec![("a", vec![]), ("b", vec![])])
    );
}

#[test]
fn root_steps_of_muzero_have_their_own_batch_size() {
    let alpha =
        BatchSizes { muzero: false, gpu_batch_size: 16, gpu_batch_size_root: 4, search_batch_size: 2 };
    let mu = BatchSizes { muzero: true, ..alpha };
    assert_eq!(batch_limit(alpha, false), 16);
    assert_eq!(batch_limit(alpha, true), 16);
    assert_eq!(batch_limit(mu, false), 16);
    assert_eq!(batch_limit(mu, true), 4);
}

#[test]
fn inputs_are_stacked_row_by_row() {
    let rows = vec![vec![1u8, 2], vec![3, 4], vec![5, 6]];
    assert_eq!(stack_rows(&rows, 2), Some(vec![1, 2, 3, 4, 5, 6]));
    assert_eq!(stack_rows(&rows, 3), None);
    assert_eq!(stack_rows(&vec![vec![1u8, 2], vec![3]], 2), None);
    assert_eq!(stack_rows(&Vec::<Vec<u8>>::new(), 7), Some(vec![]));
    assert_eq!(stack_rows(&vec![Vec::<u8>::new(), vec![]], 0), Some(vec![]));
}

#[test]
fn what_is_stacked_splits_into_the_same_rows() {
    let rows = vec![vec![0.5f32, 0.25, 0.125], vec![1.0, 2.0, 3.0], vec![-1.0, 0.0, 1.0]];
    let flat = stack_rows(&rows, 3).unwrap();
    assert_eq!(split_rows(&flat, 3, 3), Some(rows));
}
