use kzero::dispatch::{
    dispatch_game, dispatch_spec_alt, dispatch_spec_non_alt, is_default_start_pos, BoardKind, Dispatch,
    DispatchError, DispatchRequest, MapperKind, Specialization, StartPosition,
};
use kzero::game::Game;

fn request(start_pos_is_default: bool, muzero: bool, muzero_enabled: bool) -> DispatchRequest {
    DispatchRequest { start_pos_is_default, muzero, muzero_enabled }
}

fn alpha(board: BoardKind, mapper: MapperKind, start_pos: StartPosition) -> Dispatch {
    Dispatch { board, mapper, start_pos, specialization: Specialization::AlphaZero }
}

#[test]
fn every_game_has_its_board_and_mapper() {
    let plain = request(true, false, false);
    assert_eq!(
        dispatch_game(Game::TTT, plain),
        Ok(alpha(BoardKind::TTT, MapperKind::TTTStd, StartPosition::Default))
    );
    assert_eq!(
        dispatch_game(Game::STTT, plain),
        Ok(alpha(BoardKind::STTT, MapperKind::STTTStd, StartPosition::Default))
    );
    assert_eq!(
        dispatch_game(Game::Chess, plain),
        Ok(alpha(BoardKind::Chess, MapperKind::ChessStd, StartPosition::Default))
    );
    assert_eq!(
        dispatch_game(Game::ChessHist { length: 8 }, plain),
        Ok(alpha(BoardKind::Chess, MapperKind::ChessHistory { length: 8 }, StartPosition::Default))
    );
    assert_eq!(
        dispatch_game(Game::Ataxx { size: 7 }, plain),
        Ok(alpha(
            BoardKind::Ataxx,
            MapperKind::AtaxxStd { size: 7 },
            StartPosition::Named { size: 7 }
        ))
    );
    assert_eq!(
        dispatch_game(Game::ArimaaSplit, plain),
        Ok(alpha(BoardKind::Arimaa, MapperKind::ArimaaSplit, StartPosition::Default))
    );
    assert_eq!(
        dispatch_game(Game::Trictrac, plain),
        Ok(alpha(BoardKind::Trictrac, MapperKind::TrictracStd, StartPosition::Default))
    );
    assert_eq!(
        dispatch_game(Game::Go { size: 9 }, plain),
        Ok(alpha(
            BoardKind::Go,
            MapperKind::GoStd { size: 9, include_history: true },
            StartPosition::Named { size: 9 }
        ))
    );
}

#[test]
fn fixed_start_games_refuse_other_start_positions() {
    let other = request(false, false, false);
    for game in [
        Game::TTT,
        Game::STTT,
        Game::Chess,
        Game::ChessHist { length: 2 },
        Game::ArimaaSplit,
        Game::Trictrac,
    ] {
        assert_eq!(dispatch_game(game, other), Err(DispatchError::StartPosNotDefault));
    }
    assert!(dispatch_game(Game::Ataxx { size: 5 }, other).is_ok());
    assert!(dispatch_game(Game::Go { size: 5 }, other).is_ok());
}

#[test]
fn muzero_needs_an_alternating_board_and_a_build_that_has_it() {
    let on = request(true, true, true);
    let off = request(true, true, false);
    for game in [Game::TTT, Game::STTT, Game::Chess, Game::Ataxx { size: 7 }] {
        assert_eq!(dispatch_game(game, on).map(|d| d.specialization), Ok(Specialization::MuZero));
        assert_eq!(dispatch_game(game, off), Err(DispatchError::MuZeroNotEnabled));
    }
    for game in [Game::ArimaaSplit, Game::Trictrac, Game::Go { size: 9 }] {
        assert_eq!(dispatch_game(game, on), Err(DispatchError::MuZeroNeedsAlternatingBoard));
        assert_eq!(dispatch_game(game, off), Err(DispatchError::MuZeroNeedsAlternatingBoard));
    }
}

#[test]
fn start_position_is_checked_before_the_search() {
    assert_eq!(
        dispatch_game(Game::Trictrac, request(false, true, true)),
        Err(DispatchError::StartPosNotDefault)
    );
    assert_eq!(
        dispatch_game(Game::TTT, request(false, true, false)),
        Err(DispatchError::StartPosNotDefault)
    );
}

#[test]
fn search_flavours() {
    assert_eq!(dispatch_spec_alt(false, false), Ok(Specialization::AlphaZero));
    assert_eq!(dispatch_spec_alt(false, true), Ok(Specialization::AlphaZero));
    assert_eq!(dispatch_spec_alt(true, true), Ok(Specialization::MuZero));
    assert_eq!(dispatch_spec_alt(true, false), Err(DispatchError::MuZeroNotEnabled));
    assert_eq!(dispatch_spec_non_alt(false), Ok(Specialization::AlphaZero));
    assert_eq!(dispatch_spec_non_alt(true), Err(DispatchError::MuZeroNeedsAlternatingBoard));
}

#[test]
fn default_start_position_is_the_word_default() {
    assert!(is_default_start_pos("default"));
    assert!(!is_default_start_pos("Default"));
    assert!(!is_default_start_pos(""));
    assert!(!is_default_start_pos("default "));
    assert!(!is_default_start_pos("random-gaps-v1"));
}
