//! The role of a picked player on the pitch, as the team picks store it.
use crate::text::str_eq;
use vstd::prelude::*;

verus! {

/// Where a picked player plays; assistant managers are picked as managers.
#[derive(Debug, Clone, Copy, PartialEq, Eq, Structural)]
pub enum PlayerPosition {
    Goalkeeper,
    Defender,
    Midfielder,
    Attacker,
    Manager,
}

/// The text was not the name of a position; it holds that text.
#[derive(Debug)]
pub struct ParsePositionError(pub String);

/// The name under which a position is stored.
pub open spec fn position_name(p: PlayerPosition) -> Seq<char> {
    match p {
        PlayerPosition::Goalkeeper => "Goalkeeper"@,
        PlayerPosition::Defender => "Defender"@,
        PlayerPosition::Midfielder => "Midfielder"@,
        PlayerPosition::Attacker => "Attacker"@,
        PlayerPosition::Manager => "Manager"@,
    }
}

/// The position that `s` names, if any.
pub open spec fn position_named(s: Seq<char>) -> Option<PlayerPosition> {
    if s == "Goalkeeper"@ {
        Some(PlayerPosition::Goalkeeper)
    } else if s == "Defender"@ {
        Some(PlayerPosition::Defender)
    } else if s == "Midfielder"@ {
        Some(PlayerPosition::Midfielder)
    } else if s == "Attacker"@ {
        Some(PlayerPosition::Attacker)
    } else if s == "Manager"@ {
        Some(PlayerPosition::Manager)
    } else {
        None
    }
}

impl PlayerPosition {
    /// The position's name.
    pub fn as_str(&self) -> (s: &'static str)
        ensures
            s@ == position_name(*self),
    {
        match self {
            PlayerPosition::Goalkeeper => "Goalkeeper",
            PlayerPosition::Defender => "Defender",
            PlayerPosition::Midfielder => "Midfielder",
            PlayerPosition::Attacker => "Attacker",
            PlayerPosition::Manager => "Manager",
        }
    }

    /// The position the text names, or an error that holds the text.
    pub fn parse(s: &str) -> (res: Result<PlayerPosition, ParsePositionError>)
        ensures
            res matches Ok(p) ==> position_named(s@) == Some(p),
            res matches Err(e) ==> position_named(s@) is None && e.0@ == s@,
            position_named(s@) is Some ==> res is Ok,
    {
        if str_eq(s, "Goalkeeper") {
            Ok(PlayerPosition::Goalkeeper)
        } else if str_eq(s, "Defender") {
            Ok(PlayerPosition::Defender)
        } else if str_eq(s, "Midfielder") {
            Ok(PlayerPosition::Midfielder)
        } else if str_eq(s, "Attacker") {
            Ok(PlayerPosition::Attacker)
        } else if str_eq(s, "Manager") {
            Ok(PlayerPosition::Manager)
        } else {
            Err(ParsePositionError(s.to_owned()))
        }
    }

    /// Parsing a position's name gives the position back.
    pub proof fn lemma_parse_name(p: PlayerPosition)
        ensures
            position_named(position_name(p)) == Some(p),
    {
        reveal_strlit("Goalkeeper");
        reveal_strlit("Defender");
        reveal_strlit("Midfielder");
        reveal_strlit("Attacker");
        reveal_strlit("Manager");
        match p {
            PlayerPosition::Goalkeeper => {},
            PlayerPosition::Defender => {
                assert("Defender"@[0] != "Goalkeeper"@[0]);
            },
            PlayerPosition::Midfielder => {
                assert("Midfielder"@[0] != "Goalkeeper"@[0]);
                assert("Midfielder"@[0] != "Defender"@[0]);
            },
            PlayerPosition::Attacker => {
                assert("Attacker"@[0] != "Goalkeeper"@[0]);
                assert("Attacker"@[0] != "Defender"@[0]);
                assert("Attacker"@[0] != "Midfielder"@[0]);
            },
            PlayerPosition::Manager => {
                assert("Manager"@[0] != "Goalkeeper"@[0]);
                assert("Manager"@[0] != "Defender"@[0]);
                assert("Manager"@[1] != "Midfielder"@[1]);
                assert("Manager"@[0] != "Attacker"@[0]);
            },
        }
    }
}

impl core::str::FromStr for PlayerPosition {
    type Err = ParsePositionError;

    fn from_str(s: &str) -> (res: Result<Self, Self::Err>)
        ensures
            res matches Ok(p) ==> position_named(s@) == Some(p),
            res matches Err(e) ==> position_named(s@) is None && e.0@ == s@,
            position_named(s@) is Some ==> res is Ok,
    {
        Self::parse(s)
    }
}

} // verus!
