use crate::text::{decimal, decimal_string};
use vstd::prelude::*;

verus! {

/// A game week of the season: an integer in `1..=38`.
#[derive(Debug, Clone, Copy, PartialEq, Eq, PartialOrd, Ord, Hash)]
pub struct GameWeek(u8);

/// The value given to `GameWeek::new` was outside `1..=38`.
#[derive(Debug, Clone, Copy, PartialEq, Eq)]
pub struct GameWeekError(pub u8);

/// Whether `n` is the number of a game week.
pub open spec fn is_game_week_number(n: int) -> bool {
    1 <= n <= 38
}

impl GameWeek {
    pub const MIN: u8 = 1;
    pub const MAX: u8 = 38;

    /// The number of the game week.
    pub closed spec fn spec_value(self) -> u8 {
        self.0
    }

    /// Every game week lies in `1..=38`.
    #[verifier::type_invariant]
    pub closed spec fn wf(self) -> bool {
        is_game_week_number(self.0 as int)
    }

    /// The game week with the given number (a game week only for numbers in `1..=38`).
    pub closed spec fn from_number(n: u8) -> GameWeek {
        GameWeek(n)
    }

    pub broadcast proof fn lemma_from_number(n: u8)
        ensures
            #[trigger] Self::from_number(n).spec_value() == n,
            is_game_week_number(n as int) ==> Self::from_number(n).wf(),
    {
    }

    /// A game week is determined by its number.
    pub broadcast proof fn lemma_number_determines(a: GameWeek, b: GameWeek)
        ensures
            #[trigger] a.spec_value() == #[trigger] b.spec_value() <==> a == b,
    {
    }

    /// The following game week, if there is one.
    pub open spec fn spec_next(self) -> Option<GameWeek> {
        if self.spec_value() == Self::MAX {
            None
        } else {
            Some(Self::from_number((self.spec_value() + 1) as u8))
        }
    }

    /// The preceding game week, if there is one.
    pub open spec fn spec_previous(self) -> Option<GameWeek> {
        if self.spec_value() == Self::MIN {
            None
        } else {
            Some(Self::from_number((self.spec_value() - 1) as u8))
        }
    }

    pub fn new(game_week: u8) -> (res: Result<Self, GameWeekError>)
        ensures
            is_game_week_number(game_week as int) ==> res == Ok::<Self, GameWeekError>(
                Self::from_number(game_week),
            ),
            !is_game_week_number(game_week as int) ==> res == Err::<Self, GameWeekError>(
                GameWeekError(game_week),
            ),
    {
        if Self::MIN <= game_week && game_week <= Self::MAX {
            Ok(GameWeek(game_week))
        } else {
            Err(GameWeekError(game_week))
        }
    }

    pub fn is_first(&self) -> (b: bool)
        ensures
            b == (self.spec_value() == Self::MIN),
    {
        self.0 == Self::MIN
    }

    pub fn is_last(&self) -> (b: bool)
        ensures
            b == (self.spec_value() == Self::MAX),
    {
        self.0 == Self::MAX
    }

    pub fn next(&self) -> (res: Option<GameWeek>)
        ensures
            res == self.spec_next(),
            res matches Some(n) ==> n.wf(),
    {
        proof { use_type_invariant(self); }
        if self.is_last() {
            None
        } else {
            Some(GameWeek(self.0 + 1))
        }
    }

    pub fn previous(&self) -> (res: Option<GameWeek>)
        ensures
            res == self.spec_previous(),
            res matches Some(p) ==> p.wf(),
    {
        proof { use_type_invariant(self); }
        if self.is_first() {
            None
        } else {
            Some(GameWeek(self.0 - 1))
        }
    }

    /// The first game week of the season.
    pub fn first() -> (g: GameWeek)
        ensures
            g == Self::from_number(Self::MIN),
    {
        GameWeek(Self::MIN)
    }

    /// The last game week of the season.
    pub fn last() -> (g: GameWeek)
        ensures
            g == Self::from_number(Self::MAX),
    {
        GameWeek(Self::MAX)
    }

    /// The text that `Display` gives: the number of the game week.
    pub fn to_string(&self) -> (s: String)
        ensures
            s@ == decimal(self.spec_value() as int),
    {
        decimal_string(self.0 as i64)
    }

    /// `next` and `previous` undo each other, and `next` is `None` only for the last game week.
    pub proof fn lemma_next_previous(g: GameWeek)
        requires
            g.wf(),
        ensures
            g.spec_next() is None <==> g == Self::from_number(Self::MAX),
            g.spec_previous() is None <==> g == Self::from_number(Self::MIN),
            g.spec_next() matches Some(n) ==> n.wf() && n.spec_value() == g.spec_value() + 1
                && n.spec_previous() == Some(g),
            g.spec_previous() matches Some(p) ==> p.wf() && p.spec_value() == g.spec_value() - 1
                && p.spec_next() == Some(g),
    {
    }
}

impl TryFrom<u8> for GameWeek {
    type Error = GameWeekError;

    fn try_from(value: u8) -> (res: Result<Self, Self::Error>) {
        Self::new(value)
    }
}

impl vstd::std_specs::convert::TryFromSpecImpl<u8> for GameWeek {
    open spec fn obeys_try_from_spec() -> bool {
        true
    }

    open spec fn try_from_spec(v: u8) -> Result<Self, Self::Error> {
        if is_game_week_number(v as int) {
            Ok(Self::from_number(v))
        } else {
            Err(GameWeekError(v))
        }
    }
}

impl PartialEq<u8> for GameWeek {
    fn eq(&self, other: &u8) -> (res: bool) {
        self.0 == *other
    }
}

impl vstd::std_specs::cmp::PartialEqSpecImpl<u8> for GameWeek {
    open spec fn obeys_eq_spec() -> bool {
        true
    }

    open spec fn eq_spec(&self, other: &u8) -> bool {
        self.spec_value() == *other
    }
}

impl PartialEq<GameWeek> for u8 {
    fn eq(&self, other: &GameWeek) -> (res: bool) {
        *self == other.0
    }
}

impl vstd::std_specs::cmp::PartialEqSpecImpl<GameWeek> for u8 {
    open spec fn obeys_eq_spec() -> bool {
        true
    }

    open spec fn eq_spec(&self, other: &GameWeek) -> bool {
        *self == other.spec_value()
    }
}

impl core::ops::Deref for GameWeek {
    type Target = u8;

    fn deref(&self) -> (r: &u8)
        ensures
            *r == self.spec_value(),
            is_game_week_number(*r as int),
    {
        proof { use_type_invariant(self); }
        &self.0
    }
}

} // verus!
