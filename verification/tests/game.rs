use kzero::game::Game;

#[test]
fn parse_fixed_names() {
    assert_eq!(Game::parse("ttt"), Some(Game::TTT));
    assert_eq!(Game::parse("sttt"), Some(Game::STTT));
    assert_eq!(Game::parse("chess"), Some(Game::Chess));
    assert_eq!(Game::parse("arimaa-split"), Some(Game::ArimaaSplit));
    assert_eq!(Game::parse("trictrac"), Some(Game::Trictrac));
    assert_eq!(Game::parse("ataxx"), Some(Game::Ataxx { size: 7 }));
}

#[test]
fn parse_sized_names() {
    assert_eq!(Game::parse("ataxx-5"), Some(Game::Ataxx { size: 5 }));
    assert_eq!(Game::parse("go-19"), Some(Game::Go { size: 19 }));
    assert_eq!(Game::parse("chess-hist-8"), Some(Game::ChessHist { length: 8 }));
    assert_eq!(Game::parse("go-+9"), Some(Game::Go { size: 9 }));
    assert_eq!(Game::parse("go-007"), Some(Game::Go { size: 7 }));
    assert_eq!(Game::parse("ataxx-255"), Some(Game::Ataxx { size: 255 }));
}

#[test]
fn parse_rejects_unknown_names() {
    assert_eq!(Game::parse(""), None);
    assert_eq!(Game::parse("checkers"), None);
    assert_eq!(Game::parse("TTT"), None);
    assert_eq!(Game::parse("ataxx-"), None);
    assert_eq!(Game::parse("ataxx-256"), None);
    assert_eq!(Game::parse("ataxx-7x"), None);
    assert_eq!(Game::parse("go--1"), None);
    assert_eq!(Game::parse("go-+"), None);
    assert_eq!(Game::parse("chess-hist-99999999999999999999999999"), None);
    assert_eq!(Game::parse("go-\u{663}"), None);
}

#[test]
fn name_writes_the_identifier() {
    assert_eq!(Game::TTT.name(), "ttt");
    assert_eq!(Game::Ataxx { size: 7 }.name(), "ataxx-7");
    assert_eq!(Game::ChessHist { length: 120 }.name(), "chess-hist-120");
    assert_eq!(Game::Go { size: 0 }.name(), "go-0");
    assert_eq!(Game::Go { size: 255 }.name(), "go-255");
}

#[test]
fn name_then_parse_is_identity() {
    let games = [
        Game::TTT,
        Game::STTT,
        Game::Chess,
        Game::Ataxx { size: 0 },
        Game::Ataxx { size: 7 },
        Game::ChessHist { length: 0 },
        Game::ChessHist { length: usize::MAX },
        Game::ArimaaSplit,
        Game::Trictrac,
        Game::Go { size: 9 },
        Game::Go { size: 255 },
    ];
    for game in games {
        assert_eq!(Game::parse(&game.name()), Some(game));
    }
}
