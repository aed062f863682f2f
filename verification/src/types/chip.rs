use crate::text::str_eq;
use vstd::prelude::*;

verus! {

/// A chip a manager can play in a game week.
#[derive(Debug, Clone, Copy, PartialEq, Eq, Structural)]
pub enum Chip {
    WildCard,
    FreeHit,
    TripleCaptain,
    BenchBoost,
}

/// The text was not the name of a chip; it holds that text.
#[derive(Debug)]
pub struct ParseChipError(String);

impl ParseChipError {
    /// The text that was refused.
    pub closed spec fn spec_text(self) -> Seq<char> {
        self.0@
    }

    /// The text that was refused.
    pub fn text(&self) -> (s: &str)
        ensures
            s@ == self.spec_text(),
    {
        self.0.as_str()
    }
}

/// The name under which the FPL API writes a chip.
pub open spec fn chip_name(c: Chip) -> Seq<char> {
    match c {
        Chip::WildCard => "wildcard"@,
        Chip::FreeHit => "freehit"@,
        Chip::TripleCaptain => "3xc"@,
        Chip::BenchBoost => "bboost"@,
    }
}

/// Whether `s` names a chip.
pub open spec fn is_chip_name(s: Seq<char>) -> bool {
    exists|c: Chip| chip_name(c) == s
}

/// The name a chip is shown with.
pub open spec fn chip_pretty_name(c: Chip) -> Seq<char> {
    match c {
        Chip::WildCard => "Wildcard"@,
        Chip::FreeHit => "Free Hit"@,
        Chip::TripleCaptain => "Triple Captain"@,
        Chip::BenchBoost => "Bench Boost"@,
    }
}

/// How a chip text from the FPL API is shown: the chip's shown name where the text names a
/// chip, else the text itself.
pub open spec fn shown_chip(s: Seq<char>) -> Seq<char> {
    if s == "wildcard"@ {
        "Wildcard"@
    } else if s == "freehit"@ {
        "Free Hit"@
    } else if s == "3xc"@ {
        "Triple Captain"@
    } else if s == "bboost"@ {
        "Bench Boost"@
    } else {
        s
    }
}

impl Chip {
    pub const ALL: [Chip; 3] = [Chip::WildCard, Chip::FreeHit, Chip::TripleCaptain];

    pub fn as_str(&self) -> (s: &'static str)
        ensures
            s@ == chip_name(*self),
    {
        match self {
            Self::WildCard => "wildcard",
            Self::FreeHit => "freehit",
            Self::TripleCaptain => "3xc",
            Self::BenchBoost => "bboost",
        }
    }

    /// The name the chip is shown with.
    pub fn pretty_name(&self) -> (s: &'static str)
        ensures
            s@ == chip_pretty_name(*self),
    {
        match self {
            Self::WildCard => "Wildcard",
            Self::FreeHit => "Free Hit",
            Self::TripleCaptain => "Triple Captain",
            Self::BenchBoost => "Bench Boost",
        }
    }

    /// A chip's API name is shown as the chip's shown name.
    pub proof fn lemma_shown_name(c: Chip)
        ensures
            shown_chip(chip_name(c)) == chip_pretty_name(c),
    {
        Self::lemma_names_distinct(c, Chip::WildCard);
        Self::lemma_names_distinct(c, Chip::FreeHit);
        Self::lemma_names_distinct(c, Chip::TripleCaptain);
        Self::lemma_names_distinct(c, Chip::BenchBoost);
    }

    /// Text that names no chip is shown as it is.
    pub proof fn lemma_shown_other(s: Seq<char>)
        requires
            !is_chip_name(s),
        ensures
            shown_chip(s) == s,
    {
        assert(chip_name(Chip::WildCard) != s);
        assert(chip_name(Chip::FreeHit) != s);
        assert(chip_name(Chip::TripleCaptain) != s);
        assert(chip_name(Chip::BenchBoost) != s);
    }

    /// The text that `Display` gives: the chip's name.
    pub fn to_string(&self) -> (s: String)
        ensures
            s@ == chip_name(*self),
    {
        self.as_str().to_owned()
    }

    /// The chip the text names, or an error that holds the text.
    pub fn parse(s: &str) -> (res: Result<Chip, ParseChipError>)
        ensures
            res matches Ok(c) ==> chip_name(c) == s@,
            res matches Err(e) ==> !is_chip_name(s@) && e.spec_text() == s@,
            is_chip_name(s@) ==> res is Ok,
    {
        proof {
            reveal_strlit("freehit");
            reveal_strlit("wildcard");
            reveal_strlit("3xc");
            reveal_strlit("bboost");
        }
        if str_eq(s, "freehit") {
            Ok(Self::FreeHit)
        } else if str_eq(s, "wildcard") {
            Ok(Self::WildCard)
        } else if str_eq(s, "3xc") {
            Ok(Self::TripleCaptain)
        } else if str_eq(s, "bboost") {
            Ok(Self::BenchBoost)
        } else {
            proof {
                assert forall|c: Chip| chip_name(c) != s@ by {
                    match c {
                        Chip::WildCard => {},
                        Chip::FreeHit => {},
                        Chip::TripleCaptain => {},
                        Chip::BenchBoost => {},
                    }
                }
            }
            Err(ParseChipError(s.to_owned()))
        }
    }

    /// Chip names tell chips apart: the chip `parse` finds for a chip's name is that chip.
    pub proof fn lemma_names_distinct(a: Chip, b: Chip)
        ensures
            chip_name(a) == chip_name(b) <==> a == b,
    {
        reveal_strlit("freehit");
        reveal_strlit("wildcard");
        reveal_strlit("3xc");
        reveal_strlit("bboost");
        if a != b {
            match (a, b) {
                (Chip::WildCard, _) => { assert(chip_name(a)[0] != chip_name(b)[0] || chip_name(a).len() != chip_name(b).len()); },
                (Chip::FreeHit, _) => { assert(chip_name(a)[0] != chip_name(b)[0] || chip_name(a).len() != chip_name(b).len()); },
                (Chip::TripleCaptain, _) => { assert(chip_name(a)[0] != chip_name(b)[0] || chip_name(a).len() != chip_name(b).len()); },
                (Chip::BenchBoost, _) => { assert(chip_name(a)[0] != chip_name(b)[0] || chip_name(a).len() != chip_name(b).len()); },
            }
        }
    }
}

impl core::str::FromStr for Chip {
    type Err = ParseChipError;

    fn from_str(s: &str) -> (res: Result<Self, Self::Err>)
        ensures
            res matches Ok(c) ==> chip_name(c) == s@,
            res matches Err(e) ==> !is_chip_name(s@) && e.spec_text() == s@,
            is_chip_name(s@) ==> res is Ok,
    {
        Self::parse(s)
    }
}

} // verus!
