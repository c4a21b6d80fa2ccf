use kzero::mapping::trictrac::{
    Color, FieldCheckers, PlayerStats, Scalar, TrictracPosition, TrictracStdMapper,
};

fn empty_fields() -> Vec<FieldCheckers> {
    vec![FieldCheckers { count: 0, color: None }; 24]
}

fn stats(color: Color) -> PlayerStats {
    PlayerStats {
        color,
        points: 0,
        holes: 0,
        can_bredouille: false,
        can_big_bredouille: false,
        dice_roll_count: 0,
    }
}

fn initial_position() -> TrictracPosition {
    let mut fields = empty_fields();
    fields[0] = FieldCheckers { count: 15, color: Some(Color::White) };
    fields[12] = FieldCheckers { count: 15, color: Some(Color::Black) };
    TrictracPosition::new(fields, 1, (0, 0), stats(Color::White), stats(Color::Black)).unwrap()
}

#[test]
fn shape_and_scalar_count() {
    let mapper = TrictracStdMapper;
    assert_eq!(mapper.input_bool_shape(), [30, 24, 1]);
    assert_eq!(mapper.input_scalar_count(), 15);
}

#[test]
fn position_needs_twenty_four_fields() {
    let white = stats(Color::White);
    let black = stats(Color::Black);
    assert!(TrictracPosition::new(empty_fields(), 0, (1, 1), white, black).is_some());
    let mut short = empty_fields();
    short.pop();
    assert!(TrictracPosition::new(short, 0, (1, 1), white, black).is_none());
    let mut long = empty_fields();
    long.push(FieldCheckers { count: 0, color: None });
    assert!(TrictracPosition::new(long, 0, (1, 1), white, black).is_none());
    assert!(TrictracPosition::new(Vec::new(), 0, (1, 1), white, black).is_none());
}

#[test]
fn encoding_fills_the_announced_shape() {
    let mapper = TrictracStdMapper;
    let mut bools = Vec::new();
    let mut scalars = Vec::new();
    mapper.encode_input(&mut bools, &mut scalars, &initial_position());
    let shape = mapper.input_bool_shape();
    assert_eq!(bools.len(), shape[0] * shape[1] * shape[2]);
    assert_eq!(scalars.len(), mapper.input_scalar_count());
}

#[test]
fn full_stack_of_fifteen_sets_no_plane() {
    let mapper = TrictracStdMapper;
    let mut bools = Vec::new();
    let mut scalars = Vec::new();
    mapper.encode_input(&mut bools, &mut scalars, &initial_position());
    assert!(bools.iter().all(|&b| !b));
}

#[test]
fn planes_are_indexed_by_player_count_and_field() {
    let mut fields = empty_fields();
    fields[0] = FieldCheckers { count: 13, color: Some(Color::Black) };
    fields[3] = FieldCheckers { count: 2, color: Some(Color::Black) };
    fields[23] = FieldCheckers { count: 14, color: Some(Color::White) };
    fields[5] = FieldCheckers { count: 1, color: Some(Color::White) };
    let position =
        TrictracPosition::new(fields, 2, (3, 5), stats(Color::Black), stats(Color::White)).unwrap();
    let mut bools = Vec::new();
    let mut scalars = Vec::new();
    TrictracStdMapper.encode_input(&mut bools, &mut scalars, &position);
    let index = |player: usize, count: usize, field: usize| (player * 15 + count) * 24 + field;
    let mut expected = vec![false; 720];
    expected[index(0, 13, 0)] = true;
    expected[index(0, 2, 3)] = true;
    expected[index(1, 14, 23)] = true;
    expected[index(1, 1, 5)] = true;
    assert_eq!(bools, expected);
}

#[test]
fn empty_field_with_a_colour_sets_the_zero_plane() {
    let mut fields = empty_fields();
    fields[7] = FieldCheckers { count: 0, color: Some(Color::White) };
    let position =
        TrictracPosition::new(fields, 0, (1, 1), stats(Color::White), stats(Color::Black)).unwrap();
    let mut bools = Vec::new();
    let mut scalars = Vec::new();
    TrictracStdMapper.encode_input(&mut bools, &mut scalars, &position);
    let set: Vec<usize> = (0..720).filter(|&i| bools[i]).collect();
    assert_eq!(set, vec![7]);
}

#[test]
fn scalars_in_order() {
    let pov = PlayerStats {
        color: Color::Black,
        points: 10,
        holes: 3,
        can_bredouille: true,
        can_big_bredouille: false,
        dice_roll_count: 7,
    };
    let opp = PlayerStats {
        color: Color::White,
        points: 4,
        holes: 11,
        can_bredouille: false,
        can_big_bredouille: true,
        dice_roll_count: 6,
    };
    let position = TrictracPosition::new(empty_fields(), 4, (2, 6), pov, opp).unwrap();
    let mut bools = Vec::new();
    let mut scalars = Vec::new();
    TrictracStdMapper.encode_input(&mut bools, &mut scalars, &position);
    let one = |numer: u32| Scalar { numer, denom: 1 };
    assert_eq!(
        scalars,
        vec![
            one(4),
            one(0),
            one(1),
            Scalar { numer: 2, denom: 6 },
            Scalar { numer: 6, denom: 6 },
            one(10),
            one(3),
            one(1),
            one(0),
            one(7),
            one(4),
            one(11),
            one(0),
            one(1),
            one(6),
        ]
    );
    let values: Vec<f32> = scalars.iter().map(|s| s.numer as f32 / s.denom as f32).collect();
    assert_eq!(values[3], 2.0 / 6.0);
    assert_eq!(values[4], 1.0);
    assert_eq!(values[0], 4.0);
}

#[test]
fn encoding_appends_to_what_is_there() {
    let mut bools = vec![true, false];
    let mut scalars = vec![Scalar { numer: 9, denom: 9 }];
    TrictracStdMapper.encode_input(&mut bools, &mut scalars, &initial_position());
    assert_eq!(bools.len(), 722);
    assert_eq!(&bools[..2], &[true, false]);
    assert_eq!(scalars.len(), 16);
    assert_eq!(scalars[0], Scalar { numer: 9, denom: 9 });
    assert_eq!(scalars[1], Scalar { numer: 1, denom: 1 });
}
