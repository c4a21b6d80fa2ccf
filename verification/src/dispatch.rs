//! Binding a game to the pieces that play it: which board, which mapper,
//! which start position and which flavour of search. The choice is made once,
//! at startup; everything downstream is parameterised by it.

use vstd::prelude::*;
use crate::game::Game;
use crate::text::str_eq;

verus! {

/// The board type on which a game is played.
#[derive(Clone, Copy, Debug, PartialEq, Eq, Structural)]
pub enum BoardKind {
    TTT,
    STTT,
    Ataxx,
    Chess,
    Arimaa,
    Trictrac,
    Go,
}

/// The mapper that encodes a board and its moves for the network.
#[derive(Clone, Copy, Debug, PartialEq, Eq, Structural)]
pub enum MapperKind {
    TTTStd,
    STTTStd,
    AtaxxStd { size: u8 },
    ChessStd,
    ChessHistory { length: usize },
    ArimaaSplit,
    TrictracStd,
    GoStd { size: u8, include_history: bool },
}

/// Where the games of a run begin.
#[derive(Clone, Copy, Debug, PartialEq, Eq, Structural)]
pub enum StartPosition {
    /// The board's own initial position.
    Default,
    /// The position that the game's start position table gives for the
    /// configured name and this board size.
    Named { size: u8 },
}

/// The flavour of search that drives the games.
#[derive(Clone, Copy, Debug, PartialEq, Eq, Structural)]
pub enum Specialization {
    AlphaZero,
    MuZero,
}

/// Everything that a game identifier selects.
#[derive(Clone, Copy, Debug, PartialEq, Eq, Structural)]
pub struct Dispatch {
    pub board: BoardKind,
    pub mapper: MapperKind,
    pub start_pos: StartPosition,
    pub specialization: Specialization,
}

/// Why a game could not be bound.
#[derive(Clone, Copy, Debug, PartialEq, Eq, Structural)]
pub enum DispatchError {
    /// The game has a single start position and another one was asked for.
    StartPosNotDefault,
    /// MuZero was asked for and this build has no MuZero search.
    MuZeroNotEnabled,
    /// MuZero was asked for on a board whose players do not strictly alternate.
    MuZeroNeedsAlternatingBoard,
}

/// What the configuration says beyond the game itself.
#[derive(Clone, Copy, Debug, PartialEq, Eq, Structural)]
pub struct DispatchRequest {
    /// The configured start position is the word `default`.
    pub start_pos_is_default: bool,
    /// MuZero was asked for.
    pub muzero: bool,
    /// This build has a MuZero search.
    pub muzero_enabled: bool,
}

/// The board of a game.
pub open spec fn board_of(game: Game) -> BoardKind {
    match game {
        Game::TTT => BoardKind::TTT,
        Game::STTT => BoardKind::STTT,
        Game::Ataxx { .. } => BoardKind::Ataxx,
        Game::Chess => BoardKind::Chess,
        Game::ChessHist { .. } => BoardKind::Chess,
        Game::ArimaaSplit => BoardKind::Arimaa,
        Game::Trictrac => BoardKind::Trictrac,
        Game::Go { .. } => BoardKind::Go,
    }
}

/// The mapper of a game.
pub open spec fn mapper_of(game: Game) -> MapperKind {
    match game {
        Game::TTT => MapperKind::TTTStd,
        Game::STTT => MapperKind::STTTStd,
        Game::Ataxx { size } => MapperKind::AtaxxStd { size },
        Game::Chess => MapperKind::ChessStd,
        Game::ChessHist { length } => MapperKind::ChessHistory { length },
        Game::ArimaaSplit => MapperKind::ArimaaSplit,
        Game::Trictrac => MapperKind::TrictracStd,
        Game::Go { size } => MapperKind::GoStd { size, include_history: true },
    }
}

/// Whether a game offers start positions by name.
pub open spec fn has_named_start_positions(game: Game) -> bool {
    game is Ataxx || game is Go
}

/// The start position of a game, or the reason why the configured one is
/// refused.
pub open spec fn start_position_of(game: Game, start_pos_is_default: bool) -> Result<
    StartPosition,
    DispatchError,
> {
    match game {
        Game::Ataxx { size } => Ok(StartPosition::Named { size }),
        Game::Go { size } => Ok(StartPosition::Named { size }),
        _ => if start_pos_is_default {
            Ok(StartPosition::Default)
        } else {
            Err(DispatchError::StartPosNotDefault)
        },
    }
}

/// The search for a board whose players strictly alternate.
pub open spec fn specialization_alt(muzero: bool, muzero_enabled: bool) -> Result<
    Specialization,
    DispatchError,
> {
    if !muzero {
        Ok(Specialization::AlphaZero)
    } else if muzero_enabled {
        Ok(Specialization::MuZero)
    } else {
        Err(DispatchError::MuZeroNotEnabled)
    }
}

/// The search for a board whose players need not alternate.
pub open spec fn specialization_non_alt(muzero: bool) -> Result<Specialization, DispatchError> {
    if muzero {
        Err(DispatchError::MuZeroNeedsAlternatingBoard)
    } else {
        Ok(Specialization::AlphaZero)
    }
}

/// The search for a game.
pub open spec fn specialization_of(game: Game, muzero: bool, muzero_enabled: bool) -> Result<
    Specialization,
    DispatchError,
> {
    if game.is_alternating_spec() {
        specialization_alt(muzero, muzero_enabled)
    } else {
        specialization_non_alt(muzero)
    }
}

/// The binding of a game: the start position is settled first, then the
/// search.
pub open spec fn dispatch_spec(game: Game, request: DispatchRequest) -> Result<
    Dispatch,
    DispatchError,
> {
    match start_position_of(game, request.start_pos_is_default) {
        Err(e) => Err(e),
        Ok(start_pos) => match specialization_of(game, request.muzero, request.muzero_enabled) {
            Err(e) => Err(e),
            Ok(specialization) => Ok(
                Dispatch { board: board_of(game), mapper: mapper_of(game), start_pos, specialization },
            ),
        },
    }
}

/// Picks the search for a board whose players strictly alternate.
pub fn dispatch_spec_alt(muzero: bool, muzero_enabled: bool) -> (r: Result<
    Specialization,
    DispatchError,
>)
    ensures
        r == specialization_alt(muzero, muzero_enabled),
{
    if muzero {
        if muzero_enabled {
            Ok(Specialization::MuZero)
        } else {
            Err(DispatchError::MuZeroNotEnabled)
        }
    } else {
        Ok(Specialization::AlphaZero)
    }
}

/// Picks the search for a board whose players need not alternate.
pub fn dispatch_spec_non_alt(muzero: bool) -> (r: Result<Specialization, DispatchError>)
    ensures
        r == specialization_non_alt(muzero),
{
    if muzero {
        Err(DispatchError::MuZeroNeedsAlternatingBoard)
    } else {
        Ok(Specialization::AlphaZero)
    }
}

/// A game with a single start position accepts only the default one.
fn default_start_only(request: DispatchRequest) -> (r: Result<StartPosition, DispatchError>)
    ensures
        r == (if request.start_pos_is_default {
            Ok::<StartPosition, DispatchError>(StartPosition::Default)
        } else {
            Err::<StartPosition, DispatchError>(DispatchError::StartPosNotDefault)
        }),
{
    if request.start_pos_is_default {
        Ok(StartPosition::Default)
    } else {
        Err(DispatchError::StartPosNotDefault)
    }
}

/// Puts a binding together once its start position and its search are known.
fn bind(
    board: BoardKind,
    mapper: MapperKind,
    start_pos: Result<StartPosition, DispatchError>,
    specialization: Result<Specialization, DispatchError>,
) -> (r: Result<Dispatch, DispatchError>)
    ensures
        r == (match start_pos {
            Err(e) => Err::<Dispatch, DispatchError>(e),
            Ok(p) => match specialization {
                Err(e) => Err::<Dispatch, DispatchError>(e),
                Ok(s) => Ok::<Dispatch, DispatchError>(
                    Dispatch { board, mapper, start_pos: p, specialization: s },
                ),
            },
        }),
{
    match start_pos {
        Err(e) => Err(e),
        Ok(p) => match specialization {
            Err(e) => Err(e),
            Ok(s) => Ok(Dispatch { board, mapper, start_pos: p, specialization: s }),
        },
    }
}

/// Binds a game to its board, mapper, start position and search.
pub fn dispatch_game(game: Game, request: DispatchRequest) -> (r: Result<Dispatch, DispatchError>)
    ensures
        r == dispatch_spec(game, request),
{
    match game {
        Game::TTT => bind(
            BoardKind::TTT,
            MapperKind::TTTStd,
            default_start_only(request),
            dispatch_spec_alt(request.muzero, request.muzero_enabled),
        ),
        Game::STTT => bind(
            BoardKind::STTT,
            MapperKind::STTTStd,
            default_start_only(request),
            dispatch_spec_alt(request.muzero, request.muzero_enabled),
        ),
        Game::Ataxx { size } => bind(
            BoardKind::Ataxx,
            MapperKind::AtaxxStd { size },
            Ok(StartPosition::Named { size }),
            dispatch_spec_alt(request.muzero, request.muzero_enabled),
        ),
        Game::Chess => bind(
            BoardKind::Chess,
            MapperKind::ChessStd,
            default_start_only(request),
            dispatch_spec_alt(request.muzero, request.muzero_enabled),
        ),
        Game::ChessHist { length } => bind(
            BoardKind::Chess,
            MapperKind::ChessHistory { length },
            default_start_only(request),
            dispatch_spec_alt(request.muzero, request.muzero_enabled),
        ),
        Game::ArimaaSplit => bind(
            BoardKind::Arimaa,
            MapperKind::ArimaaSplit,
            default_start_only(request),
            dispatch_spec_non_alt(request.muzero),
        ),
        Game::Trictrac => bind(
            BoardKind::Trictrac,
            MapperKind::TrictracStd,
            default_start_only(request),
            dispatch_spec_non_alt(request.muzero),
        ),
        Game::Go { size } => bind(
            BoardKind::Go,
            MapperKind::GoStd { size, include_history: true },
            Ok(StartPosition::Named { size }),
            dispatch_spec_non_alt(request.muzero),
        ),
    }
}

/// Whether a configured start position is the word `default`.
pub fn is_default_start_pos(start_pos: &str) -> (r: bool)
    ensures
        r == (start_pos@ == "default"@),
{
    str_eq(start_pos, "default")
}

/// MuZero is only ever bound to a game whose players strictly alternate, and
/// only in a build that has it.
pub proof fn lemma_muzero_binding(game: Game, request: DispatchRequest)
    requires
        dispatch_spec(game, request) matches Ok(d) && d.specialization == Specialization::MuZero,
    ensures
        request.muzero,
        request.muzero_enabled,
        game.is_alternating_spec(),
{
}

/// Without MuZero every game with an accepted start position is bound, to
/// the AlphaZero search.
pub proof fn lemma_alphazero_binding(game: Game, request: DispatchRequest)
    requires
        !request.muzero,
        request.start_pos_is_default || has_named_start_positions(game),
    ensures
        dispatch_spec(game, request) matches Ok(d) && d.specialization == Specialization::AlphaZero
            && d.board == board_of(game) && d.mapper == mapper_of(game),
{
}

} // verus!
