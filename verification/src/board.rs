//! The abstract board: what the pipeline asks of a game, whatever its rules.
//!
//! A board is an immutable value. Playing a move gives a new board. The
//! pipeline never looks inside a board; it asks whether the game is over and
//! how, how many moves there are, and what a move leads to.

use vstd::prelude::*;

verus! {

/// One of the two players.
#[derive(Clone, Copy, Debug, PartialEq, Eq, Structural)]
pub enum Player {
    A,
    B,
}

/// How a finished game ended.
#[derive(Clone, Copy, Debug, PartialEq, Eq, Structural)]
pub enum Outcome {
    WonBy(Player),
    Draw,
}

/// How a finished game ended for one of the players.
#[derive(Clone, Copy, Debug, PartialEq, Eq, Structural)]
pub enum OutcomeWDL {
    Win,
    Draw,
    Loss,
}

/// Why a move could not be played.
#[derive(Clone, Copy, Debug, PartialEq, Eq, Structural)]
pub enum PlayError {
    /// The game is over.
    BoardDone,
    /// The move is not among the available ones.
    UnavailableMove,
}

/// An outcome as the three flags `win_a`, `draw`, `win_b`, of which exactly
/// one is set.
#[derive(Clone, Copy, Debug, PartialEq, Eq, Structural)]
pub struct OutcomeTriple {
    pub win_a: bool,
    pub draw: bool,
    pub win_b: bool,
}

impl Player {
    /// The opponent.
    pub fn other(self) -> (r: Player)
        ensures
            r != self,
    {
        match self {
            Player::A => Player::B,
            Player::B => Player::A,
        }
    }
}

impl Outcome {
    /// The flags of an outcome.
    pub open spec fn triple_spec(self) -> OutcomeTriple {
        OutcomeTriple {
            win_a: self == Outcome::WonBy(Player::A),
            draw: self == Outcome::Draw,
            win_b: self == Outcome::WonBy(Player::B),
        }
    }

    /// The outcome as one player sees it.
    pub open spec fn pov_spec(self, pov: Player) -> OutcomeWDL {
        match self {
            Outcome::Draw => OutcomeWDL::Draw,
            Outcome::WonBy(winner) => if winner == pov {
                OutcomeWDL::Win
            } else {
                OutcomeWDL::Loss
            },
        }
    }

    /// Encodes the outcome as three flags.
    pub fn to_triple(self) -> (r: OutcomeTriple)
        ensures
            r == self.triple_spec(),
    {
        match self {
            Outcome::WonBy(Player::A) => OutcomeTriple { win_a: true, draw: false, win_b: false },
            Outcome::Draw => OutcomeTriple { win_a: false, draw: true, win_b: false },
            Outcome::WonBy(Player::B) => OutcomeTriple { win_a: false, draw: false, win_b: true },
        }
    }

    /// The outcome from the point of view of `pov`.
    pub fn pov(self, pov: Player) -> (r: OutcomeWDL)
        ensures
            r == self.pov_spec(pov),
    {
        match self {
            Outcome::Draw => OutcomeWDL::Draw,
            Outcome::WonBy(Player::A) => match pov {
                Player::A => OutcomeWDL::Win,
                Player::B => OutcomeWDL::Loss,
            },
            Outcome::WonBy(Player::B) => match pov {
                Player::A => OutcomeWDL::Loss,
                Player::B => OutcomeWDL::Win,
            },
        }
    }
}

impl OutcomeTriple {
    /// The outcome that three flags encode, if exactly one of them is set.
    pub open spec fn decode_spec(self) -> Option<Outcome> {
        if self.win_a && !self.draw && !self.win_b {
            Some(Outcome::WonBy(Player::A))
        } else if !self.win_a && self.draw && !self.win_b {
            Some(Outcome::Draw)
        } else if !self.win_a && !self.draw && self.win_b {
            Some(Outcome::WonBy(Player::B))
        } else {
            None
        }
    }

    /// Decodes three flags.
    pub fn decode(self) -> (r: Option<Outcome>)
        ensures
            r == self.decode_spec(),
    {
        if self.win_a && !self.draw && !self.win_b {
            Some(Outcome::WonBy(Player::A))
        } else if !self.win_a && self.draw && !self.win_b {
            Some(Outcome::Draw)
        } else if !self.win_a && !self.draw && self.win_b {
            Some(Outcome::WonBy(Player::B))
        } else {
            None
        }
    }
}

/// Decoding the flags of an outcome gives the outcome back.
pub proof fn lemma_triple_round_trip(outcome: Outcome)
    ensures
        outcome.triple_spec().decode_spec() == Some(outcome),
{
}

/// The state of a two-player game.
///
/// The `_spec` functions are the rules of the game as mathematics; the other
/// methods compute them.
pub trait Board: Sized {
    /// A move of the game.
    type Move: Copy;

    /// How the game ended, or `None` while it is going on.
    spec fn outcome_spec(&self) -> Option<Outcome>;

    /// The number of moves available on this board.
    spec fn move_count_spec(&self) -> usize;

    /// Whether `mv` is available on this board.
    spec fn available_spec(&self, mv: Self::Move) -> bool;

    /// The board after `mv`.
    spec fn play_spec(&self, mv: Self::Move) -> Self;

    /// The available move at place `index`, places counted from zero.
    spec fn move_at_spec(&self, index: usize) -> Self::Move;

    /// How the game ended, or `None` while it is going on.
    fn outcome(&self) -> (r: Option<Outcome>)
        ensures
            r == self.outcome_spec(),
    ;

    /// The number of available moves.
    fn move_count(&self) -> (r: usize)
        ensures
            r == self.move_count_spec(),
    ;

    /// The board after `mv`. Fails on a finished board and on a move that is
    /// not available, and on nothing else.
    fn clone_and_play(&self, mv: Self::Move) -> (r: Result<Self, PlayError>)
        ensures
            match r {
                Ok(next) => self.outcome_spec().is_none() && self.available_spec(mv) && next
                    == self.play_spec(mv),
                Err(PlayError::BoardDone) => self.outcome_spec().is_some(),
                Err(PlayError::UnavailableMove) => self.outcome_spec().is_none()
                    && !self.available_spec(mv),
            },
    ;

    /// The available move at place `index`: there is one while the game is
    /// going on and `index` is below the number of available moves.
    fn available_move(&self, index: usize) -> (r: Option<Self::Move>)
        ensures
            r.is_some() <==> self.outcome_spec().is_none() && index < self.move_count_spec(),
            r matches Some(mv) ==> mv == self.move_at_spec(index) && self.available_spec(mv),
    ;

    /// A copy of this board.
    fn duplicate(&self) -> (r: Self)
        ensures
            r == *self,
    ;
}

/// Whether the game on `board` is over.
pub fn is_done<B: Board>(board: &B) -> (r: bool)
    ensures
        r == board.outcome_spec().is_some(),
{
    board.outcome().is_some()
}

/// The board reached from `start` by playing `moves` in order.
pub open spec fn replay<B: Board>(start: B, moves: Seq<B::Move>) -> B
    decreases moves.len(),
{
    if moves.len() == 0 {
        start
    } else {
        replay(start, moves.drop_last()).play_spec(moves.last())
    }
}

/// Every move of `moves` is played on an unfinished board on which it is
/// available.
pub open spec fn playable<B: Board>(start: B, moves: Seq<B::Move>) -> bool {
    forall|i: int|
        0 <= i < moves.len() ==> {
            let before = #[trigger] replay(start, moves.take(i));
            before.outcome_spec().is_none() && before.available_spec(moves[i])
        }
}

/// Replaying one more move plays it on what the others led to.
pub proof fn lemma_replay_push<B: Board>(start: B, moves: Seq<B::Move>, mv: B::Move)
    ensures
        replay(start, moves.push(mv)) == replay(start, moves).play_spec(mv),
{
    assert(moves.push(mv).drop_last() =~= moves);
}

/// A small game for dry runs and tests. It lasts a fixed number of moves,
/// offers the moves `0 .. width` to either player at every turn, and is
/// decided by the sum of the moves played: a multiple of three is a draw, one
/// more a win for `A`, two more a win for `B`.
#[derive(Clone, Copy, Debug, PartialEq, Eq, Structural)]
pub struct TallyBoard {
    pub remaining: u8,
    pub width: u8,
    pub tally: u8,
}

/// The outcome that a tally stands for.
pub open spec fn tally_outcome(tally: u8) -> Outcome {
    if tally % 3 == 0 {
        Outcome::Draw
    } else if tally % 3 == 1 {
        Outcome::WonBy(Player::A)
    } else {
        Outcome::WonBy(Player::B)
    }
}

impl TallyBoard {
    /// A game of `length` moves with `width` choices at every move. A game
    /// without moves, or without choices, is over before it starts.
    pub fn new(length: u8, width: u8) -> (r: TallyBoard)
        ensures
            r == (TallyBoard { remaining: length, width, tally: 0 }),
    {
        TallyBoard { remaining: length, width, tally: 0 }
    }

    /// Whether no move is left to play.
    pub open spec fn over(&self) -> bool {
        self.remaining == 0 || self.width == 0
    }
}

impl Board for TallyBoard {
    type Move = u8;

    open spec fn outcome_spec(&self) -> Option<Outcome> {
        if self.over() {
            Some(tally_outcome(self.tally))
        } else {
            None
        }
    }

    open spec fn move_count_spec(&self) -> usize {
        if self.over() {
            0
        } else {
            self.width as usize
        }
    }

    open spec fn available_spec(&self, mv: u8) -> bool {
        mv < self.width
    }

    open spec fn play_spec(&self, mv: u8) -> TallyBoard {
        TallyBoard {
            remaining: (self.remaining - 1) as u8,
            width: self.width,
            tally: ((self.tally % 3 + mv % 3) % 3) as u8,
        }
    }

    open spec fn move_at_spec(&self, index: usize) -> u8 {
        index as u8
    }

    fn outcome(&self) -> (r: Option<Outcome>) {
        if self.remaining == 0 || self.width == 0 {
            let t: u8 = self.tally % 3;
            if t == 0 {
                Some(Outcome::Draw)
            } else if t == 1 {
                Some(Outcome::WonBy(Player::A))
            } else {
                Some(Outcome::WonBy(Player::B))
            }
        } else {
            None
        }
    }

    fn move_count(&self) -> (r: usize) {
        if self.remaining == 0 || self.width == 0 {
            0
        } else {
            self.width as usize
        }
    }

    fn clone_and_play(&self, mv: u8) -> (r: Result<TallyBoard, PlayError>) {
        if self.remaining == 0 || self.width == 0 {
            Err(PlayError::BoardDone)
        } else if mv >= self.width {
            Err(PlayError::UnavailableMove)
        } else {
            Ok(
                TallyBoard {
                    remaining: self.remaining - 1,
                    width: self.width,
                    tally: (self.tally % 3 + mv % 3) % 3,
                },
            )
        }
    }

    fn available_move(&self, index: usize) -> (r: Option<u8>) {
        if self.remaining == 0 || self.width == 0 || index >= self.width as usize {
            None
        } else {
            Some(index as u8)
        }
    }

    fn duplicate(&self) -> (r: TallyBoard) {
        *self
    }
}

} // verus!
