//! The standard input encoding of trictrac positions.
//!
//! A position is encoded from the point of view of the player to move:
//! thirty planes of twenty-four fields (for each of the two players, one plane
//! per number of checkers from 0 to 14), then fifteen scalars.

use vstd::prelude::*;

verus! {

/// The colour of a player and of their checkers.
#[derive(Clone, Copy, Debug, PartialEq, Eq, Structural)]
pub enum Color {
    White,
    Black,
}

/// What stands on one field of the board.
#[derive(Clone, Copy, Debug, PartialEq, Eq, Structural)]
pub struct FieldCheckers {
    pub count: u8,
    pub color: Option<Color>,
}

/// What the encoding reads of one player.
#[derive(Clone, Copy, Debug, PartialEq, Eq, Structural)]
pub struct PlayerStats {
    pub color: Color,
    pub points: u32,
    pub holes: u32,
    pub can_bredouille: bool,
    pub can_big_bredouille: bool,
    pub dice_roll_count: u32,
}

/// A scalar input as an exact fraction. The network reads `numer / denom`.
#[derive(Clone, Copy, Debug, PartialEq, Eq, Structural)]
pub struct Scalar {
    pub numer: u32,
    pub denom: u32,
}

/// The number of fields on the board.
pub const FIELD_COUNT: usize = 24;

/// The number of checkers of one player.
pub const CHECKER_COUNT: usize = 15;

/// The number of scalar inputs.
pub const SCALAR_COUNT: usize = 15;

/// The number of faces of a die, by which dice values are scaled.
pub const DIE_FACES: u32 = 6;

/// What the encoding reads of a position in which a player is to move.
pub struct TrictracPosition {
    fields: Vec<FieldCheckers>,
    turn_stage: u8,
    dice: (u8, u8),
    pov: PlayerStats,
    opp: PlayerStats,
}

/// The mathematical content of a position.
pub struct TrictracPositionView {
    pub fields: Seq<FieldCheckers>,
    pub turn_stage: u8,
    pub dice: (u8, u8),
    pub pov: PlayerStats,
    pub opp: PlayerStats,
}

impl View for TrictracPosition {
    type V = TrictracPositionView;

    closed spec fn view(&self) -> TrictracPositionView {
        TrictracPositionView {
            fields: self.fields@,
            turn_stage: self.turn_stage,
            dice: self.dice,
            pov: self.pov,
            opp: self.opp,
        }
    }
}

impl TrictracPosition {
    #[verifier::type_invariant]
    spec fn well_formed(self) -> bool {
        self.fields@.len() == FIELD_COUNT
    }

    /// A position from its parts: the twenty-four fields in board order, the
    /// turn stage, the dice, the player to move and their opponent. `None`
    /// unless there are exactly twenty-four fields.
    pub fn new(
        fields: Vec<FieldCheckers>,
        turn_stage: u8,
        dice: (u8, u8),
        pov: PlayerStats,
        opp: PlayerStats,
    ) -> (r: Option<TrictracPosition>)
        ensures
            r.is_some() <==> fields@.len() == FIELD_COUNT,
            r matches Some(p) ==> p@ == (TrictracPositionView {
                fields: fields@,
                turn_stage,
                dice,
                pov,
                opp,
            }),
    {
        if fields.len() == FIELD_COUNT {
            Some(TrictracPosition { fields, turn_stage, dice, pov, opp })
        } else {
            None
        }
    }

    /// The fields of the board, of which there are always twenty-four.
    pub fn fields(&self) -> (r: &Vec<FieldCheckers>)
        ensures
            r@ == self@.fields,
            r@.len() == FIELD_COUNT,
    {
        proof {
            use_type_invariant(self);
        }
        &self.fields
    }
}

/// The player that a plane belongs to: the player to move comes first.
pub open spec fn plane_color(position: TrictracPositionView, player: int) -> Color {
    if player == 0 {
        position.pov.color
    } else {
        position.opp.color
    }
}

/// One bit of the planes: the field holds exactly `checkers` checkers of the
/// plane's player.
pub open spec fn plane_bit(position: TrictracPositionView, player: int, checkers: int, field: int) -> bool {
    position.fields[field].color == Some(plane_color(position, player))
        && position.fields[field].count == checkers
}

/// The planes of a position, player by player, then by number of checkers,
/// then by field.
pub open spec fn encoded_bools(position: TrictracPositionView) -> Seq<bool> {
    Seq::new(
        (2 * CHECKER_COUNT * FIELD_COUNT) as nat,
        |i: int|
            plane_bit(
                position,
                i / (CHECKER_COUNT * FIELD_COUNT) as int,
                (i % (CHECKER_COUNT * FIELD_COUNT) as int) / FIELD_COUNT as int,
                i % FIELD_COUNT as int,
            ),
    )
}

/// A whole number as a scalar.
pub open spec fn whole(n: int) -> Scalar {
    Scalar { numer: n as u32, denom: 1 }
}

/// A flag as a scalar: one if set, zero if not.
pub open spec fn flag(b: bool) -> Scalar {
    Scalar { numer: if b { 1u32 } else { 0u32 }, denom: 1 }
}

/// The five scalars of one player.
pub open spec fn encoded_player(stats: PlayerStats) -> Seq<Scalar> {
    seq![
        whole(stats.points as int),
        whole(stats.holes as int),
        flag(stats.can_bredouille),
        flag(stats.can_big_bredouille),
        whole(stats.dice_roll_count as int),
    ]
}

/// The scalars of a position: the turn stage, whether white and whether black
/// is to move, the two dice as sixths, then the player to move and the
/// opponent.
pub open spec fn encoded_scalars(position: TrictracPositionView) -> Seq<Scalar> {
    seq![
        whole(position.turn_stage as int),
        flag(position.pov.color == Color::White),
        flag(position.pov.color == Color::Black),
        Scalar { numer: position.dice.0 as u32, denom: DIE_FACES },
        Scalar { numer: position.dice.1 as u32, denom: DIE_FACES },
    ] + encoded_player(position.pov) + encoded_player(position.opp)
}

/// The standard trictrac encoder.
#[derive(Debug, Copy, Clone, Eq, PartialEq)]
pub struct TrictracStdMapper;

fn colors_match(field: Option<Color>, player: Color) -> (r: bool)
    ensures
        r == (field == Some(player)),
{
    match field {
        None => false,
        Some(Color::White) => match player {
            Color::White => true,
            Color::Black => false,
        },
        Some(Color::Black) => match player {
            Color::White => false,
            Color::Black => true,
        },
    }
}

fn push_flag(scalars: &mut Vec<Scalar>, b: bool)
    ensures
        final(scalars)@ == old(scalars)@.push(flag(b)),
{
    scalars.push(Scalar { numer: if b { 1 } else { 0 }, denom: 1 });
}

fn push_player(scalars: &mut Vec<Scalar>, stats: PlayerStats)
    ensures
        final(scalars)@ == old(scalars)@ + encoded_player(stats),
{
    scalars.push(Scalar { numer: stats.points, denom: 1 });
    scalars.push(Scalar { numer: stats.holes, denom: 1 });
    push_flag(scalars, stats.can_bredouille);
    push_flag(scalars, stats.can_big_bredouille);
    scalars.push(Scalar { numer: stats.dice_roll_count, denom: 1 });
    assert(scalars@ =~= old(scalars)@ + encoded_player(stats));
}

impl TrictracStdMapper {
    /// The shape of the planes: thirty planes of twenty-four by one.
    pub fn input_bool_shape(&self) -> (r: [usize; 3])
        ensures
            r@ == seq![30usize, 24usize, 1usize],
            r@[0] == 2 * CHECKER_COUNT,
            r@[1] == FIELD_COUNT,
    {
        let r: [usize; 3] = [2 * CHECKER_COUNT, FIELD_COUNT, 1];
        assert(r@ =~= seq![30usize, 24usize, 1usize]);
        r
    }

    /// The number of scalars.
    pub fn input_scalar_count(&self) -> (r: usize)
        ensures
            r == SCALAR_COUNT,
    {
        1 + 2 + 2 + 2 * 5
    }

    /// Appends the encoding of `board` to `bools` and `scalars`.
    pub fn encode_input(&self, bools: &mut Vec<bool>, scalars: &mut Vec<Scalar>, board: &TrictracPosition)
        ensures
            final(bools)@ == old(bools)@ + encoded_bools(board@),
            final(scalars)@ == old(scalars)@ + encoded_scalars(board@),
    {
        proof {
            use_type_invariant(board);
        }
        let ghost planes = encoded_bools(board@);
        let mut player: usize = 0;
        while player < 2
            invariant
                player <= 2,
                board.fields@.len() == FIELD_COUNT,
                planes == encoded_bools(board@),
                bools@ == old(bools)@ + planes.take(player * 360),
            decreases 2 - player,
        {
            let color = if player == 0 {
                board.pov.color
            } else {
                board.opp.color
            };
            let mut checkers: usize = 0;
            while checkers < CHECKER_COUNT
                invariant
                    player < 2,
                    checkers <= CHECKER_COUNT,
                    board.fields@.len() == FIELD_COUNT,
                    planes == encoded_bools(board@),
                    color == plane_color(board@, player as int),
                    bools@ == old(bools)@ + planes.take(player * 360 + checkers * 24),
                decreases CHECKER_COUNT - checkers,
            {
                let mut field: usize = 0;
                while field < FIELD_COUNT
                    invariant
                        player < 2,
                        checkers < CHECKER_COUNT,
                        field <= FIELD_COUNT,
                        board.fields@.len() == FIELD_COUNT,
                        planes == encoded_bools(board@),
                        color == plane_color(board@, player as int),
                        bools@ == old(bools)@ + planes.take(player * 360 + checkers * 24 + field),
                    decreases FIELD_COUNT - field,
                {
                    let here = board.fields[field];
                    let bit = colors_match(here.color, color) && here.count as usize == checkers;
                    let ghost at = (player * 360 + checkers * 24 + field) as int;
                    proof {
                        assert(at / 360 == player as int);
                        assert((at % 360) / 24 == checkers as int);
                        assert(at % 24 == field as int);
                        assert(planes[at] == bit);
                        assert(planes.take(at + 1) =~= planes.take(at).push(bit));
                    }
                    bools.push(bit);
                    field = field + 1;
                }
                checkers = checkers + 1;
            }
            player = player + 1;
        }
        assert(planes.take(720) =~= planes);

        scalars.push(Scalar { numer: board.turn_stage as u32, denom: 1 });
        push_flag(scalars, colors_match(Some(board.pov.color), Color::White));
        push_flag(scalars, colors_match(Some(board.pov.color), Color::Black));
        scalars.push(Scalar { numer: board.dice.0 as u32, denom: DIE_FACES });
        scalars.push(Scalar { numer: board.dice.1 as u32, denom: DIE_FACES });
        assert(scalars@ =~= old(scalars)@ + seq![
            whole(board@.turn_stage as int),
            flag(board@.pov.color == Color::White),
            flag(board@.pov.color == Color::Black),
            Scalar { numer: board@.dice.0 as u32, denom: DIE_FACES },
            Scalar { numer: board@.dice.1 as u32, denom: DIE_FACES },
        ]);
        push_player(scalars, board.pov);
        push_player(scalars, board.opp);
        assert(scalars@ =~= old(scalars)@ + encoded_scalars(board@));
    }
}

/// An encoding fills the shape it announces: as many bits as the planes hold
/// and as many scalars as are counted.
pub proof fn lemma_encoding_fills_shape(position: TrictracPositionView)
    ensures
        encoded_bools(position).len() == 2 * CHECKER_COUNT * FIELD_COUNT * 1,
        encoded_scalars(position).len() == SCALAR_COUNT,
{
}

} // verus!
