//! The games a server can play, and the identifiers that name them.

use vstd::prelude::*;
use vstd::string::*;
use crate::text::{
    decimal, is_prefix, lemma_decimal_digits, lemma_decimal_round_trip, parse_unsigned,
    parse_unsigned_from, push_decimal, starts_with, str_eq,
};

verus! {

/// A game, with the parameters that fix its board and its encoding.
#[derive(Clone, Copy, Debug, PartialEq, Eq, Structural)]
pub enum Game {
    TTT,
    STTT,
    Chess,
    Ataxx { size: u8 },
    ChessHist { length: usize },
    ArimaaSplit,
    Trictrac,
    Go { size: u8 },
}

/// The board size of `ataxx` written without a size.
pub const DEFAULT_ATAXX_SIZE: u8 = 7;

/// A `u8` parameter read from the text after a prefix.
pub open spec fn small_parameter(rest: Seq<char>) -> Option<u8> {
    match parse_unsigned(rest, u8::MAX as nat) {
        Some(n) => Some(n as u8),
        None => None,
    }
}

/// A `usize` parameter read from the text after a prefix.
pub open spec fn large_parameter(rest: Seq<char>) -> Option<usize> {
    match parse_unsigned(rest, usize::MAX as nat) {
        Some(n) => Some(n as usize),
        None => None,
    }
}

impl Game {
    /// The game that an identifier names, if any.
    ///
    /// A fixed name stands for itself. `ataxx-N` and `go-N` take a board size
    /// up to 255, `chess-hist-N` a history length; `N` is an unsigned decimal
    /// number. Once a prefix matches, a bad number makes the whole identifier
    /// unknown.
    pub open spec fn parse_spec(s: Seq<char>) -> Option<Game> {
        if s == "ttt"@ {
            Some(Game::TTT)
        } else if s == "sttt"@ {
            Some(Game::STTT)
        } else if s == "chess"@ {
            Some(Game::Chess)
        } else if s == "ataxx"@ {
            Some(Game::Ataxx { size: DEFAULT_ATAXX_SIZE })
        } else if s == "arimaa-split"@ {
            Some(Game::ArimaaSplit)
        } else if s == "trictrac"@ {
            Some(Game::Trictrac)
        } else if is_prefix("ataxx-"@, s) {
            match small_parameter(s.skip("ataxx-"@.len() as int)) {
                Some(size) => Some(Game::Ataxx { size }),
                None => None,
            }
        } else if is_prefix("chess-hist-"@, s) {
            match large_parameter(s.skip("chess-hist-"@.len() as int)) {
                Some(length) => Some(Game::ChessHist { length }),
                None => None,
            }
        } else if is_prefix("go-"@, s) {
            match small_parameter(s.skip("go-"@.len() as int)) {
                Some(size) => Some(Game::Go { size }),
                None => None,
            }
        } else {
            None
        }
    }

    /// The identifier under which a game is written.
    pub open spec fn name_spec(self) -> Seq<char> {
        match self {
            Game::TTT => "ttt"@,
            Game::STTT => "sttt"@,
            Game::Chess => "chess"@,
            Game::Ataxx { size } => "ataxx-"@ + decimal(size as nat),
            Game::ChessHist { length } => "chess-hist-"@ + decimal(length as nat),
            Game::ArimaaSplit => "arimaa-split"@,
            Game::Trictrac => "trictrac"@,
            Game::Go { size } => "go-"@ + decimal(size as nat),
        }
    }

    /// Reads a game identifier.
    pub fn parse(s: &str) -> (r: Option<Game>)
        ensures
            r == Game::parse_spec(s@),
    {
        if str_eq(s, "ttt") {
            Some(Game::TTT)
        } else if str_eq(s, "sttt") {
            Some(Game::STTT)
        } else if str_eq(s, "chess") {
            Some(Game::Chess)
        } else if str_eq(s, "ataxx") {
            Some(Game::Ataxx { size: DEFAULT_ATAXX_SIZE })
        } else if str_eq(s, "arimaa-split") {
            Some(Game::ArimaaSplit)
        } else if str_eq(s, "trictrac") {
            Some(Game::Trictrac)
        } else if starts_with(s, "ataxx-") {
            match parse_unsigned_from(s, "ataxx-".unicode_len(), 255) {
                Some(n) => Some(Game::Ataxx { size: n as u8 }),
                None => None,
            }
        } else if starts_with(s, "chess-hist-") {
            match parse_unsigned_from(s, "chess-hist-".unicode_len(), usize::MAX as u64) {
                Some(n) => Some(Game::ChessHist { length: n as usize }),
                None => None,
            }
        } else if starts_with(s, "go-") {
            match parse_unsigned_from(s, "go-".unicode_len(), 255) {
                Some(n) => Some(Game::Go { size: n as u8 }),
                None => None,
            }
        } else {
            None
        }
    }

    /// Writes the identifier of a game.
    pub fn name(&self) -> (r: String)
        ensures
            r@ == self.name_spec(),
    {
        match *self {
            Game::TTT => String::from_str("ttt"),
            Game::STTT => String::from_str("sttt"),
            Game::Chess => String::from_str("chess"),
            Game::Ataxx { size } => {
                let mut out = String::from_str("ataxx-");
                push_decimal(&mut out, size as u64);
                out
            },
            Game::ChessHist { length } => {
                let mut out = String::from_str("chess-hist-");
                push_decimal(&mut out, length as u64);
                out
            },
            Game::ArimaaSplit => String::from_str("arimaa-split"),
            Game::Trictrac => String::from_str("trictrac"),
            Game::Go { size } => {
                let mut out = String::from_str("go-");
                push_decimal(&mut out, size as u64);
                out
            },
        }
    }

    /// Whether the players of this game move strictly in turn.
    pub open spec fn is_alternating_spec(self) -> bool {
        match self {
            Game::TTT | Game::STTT | Game::Chess | Game::Ataxx { .. } | Game::ChessHist { .. } => true,
            Game::ArimaaSplit | Game::Trictrac | Game::Go { .. } => false,
        }
    }
}

/// A game's identifier names that game: reading what `name` wrote gives the
/// game back.
pub proof fn lemma_name_round_trip(game: Game)
    ensures
        Game::parse_spec(game.name_spec()) == Some(game),
{
    reveal_strlit("ttt");
    reveal_strlit("sttt");
    reveal_strlit("chess");
    reveal_strlit("ataxx");
    reveal_strlit("arimaa-split");
    reveal_strlit("trictrac");
    reveal_strlit("ataxx-");
    reveal_strlit("chess-hist-");
    reveal_strlit("go-");
    let s = game.name_spec();
    match game {
        Game::TTT => {
            assert(s[0] == 't');
        },
        Game::STTT => {
            assert(s[0] == 's');
            assert(s.len() == 4);
        },
        Game::Chess => {
            assert(s[0] == 'c');
            assert(s.len() == 5);
        },
        Game::ArimaaSplit => {
            assert(s[1] == 'r');
            assert(s.len() == 12);
        },
        Game::Trictrac => {
            assert(s[1] == 'r');
            assert(s.len() == 8);
        },
        Game::Ataxx { size } => {
            let d = decimal(size as nat);
            lemma_decimal_digits(size as nat);
            lemma_decimal_round_trip(size as nat, u8::MAX as nat);
            assert(s.len() >= 7);
            assert(s[0] == 'a' && s[1] == 't');
            assert(s.subrange(0, 6) =~= "ataxx-"@);
            assert(s.skip(6) =~= d);
        },
        Game::ChessHist { length } => {
            let d = decimal(length as nat);
            lemma_decimal_digits(length as nat);
            lemma_decimal_round_trip(length as nat, usize::MAX as nat);
            assert(s.len() >= 12);
            assert(s[0] == 'c');
            assert(s.subrange(0, 6)[0] == s[0]);
            assert(s.subrange(0, 11) =~= "chess-hist-"@);
            assert(s.skip(11) =~= d);
        },
        Game::Go { size } => {
            let d = decimal(size as nat);
            lemma_decimal_digits(size as nat);
            lemma_decimal_round_trip(size as nat, u8::MAX as nat);
            assert(s.len() >= 4);
            assert(s[0] == 'g');
            assert(s.subrange(0, 6)[0] == s[0] || s.len() < 6);
            assert(s.subrange(0, 11)[0] == s[0] || s.len() < 11);
            assert(s.subrange(0, 3) =~= "go-"@);
            assert(s.skip(3) =~= d);
        },
    }
}

} // verus!
