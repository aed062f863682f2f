use crate::text::{decimal, decimal_string};
use vstd::prelude::*;

verus! {

/// A Premier League club: an integer in `1..=20`.
#[derive(Debug, Clone, Copy, PartialEq, Eq, PartialOrd, Ord, Hash)]
pub struct ClubId(u8);

/// The value given to `ClubId::new` was outside `1..=20`.
#[derive(Debug, Clone, Copy, PartialEq, Eq)]
pub struct ClubIdError(pub u8);

/// Whether `n` is the number of a club.
pub open spec fn is_club_number(n: int) -> bool {
    1 <= n <= 20
}

impl ClubId {
    pub const MIN: u8 = 1;
    pub const MAX: u8 = 20;

    /// The number of the club.
    pub closed spec fn spec_value(self) -> u8 {
        self.0
    }

    /// Every club number lies in `1..=20`.
    #[verifier::type_invariant]
    pub closed spec fn wf(self) -> bool {
        is_club_number(self.0 as int)
    }

    /// The club with the given number (a club only for numbers in `1..=20`).
    pub closed spec fn from_number(n: u8) -> ClubId {
        ClubId(n)
    }

    pub broadcast proof fn lemma_from_number(n: u8)
        ensures
            #[trigger] Self::from_number(n).spec_value() == n,
            is_club_number(n as int) ==> Self::from_number(n).wf(),
    {
    }

    /// A club is determined by its number.
    pub broadcast proof fn lemma_number_determines(a: ClubId, b: ClubId)
        ensures
            #[trigger] a.spec_value() == #[trigger] b.spec_value() <==> a == b,
    {
    }

    pub fn new(club_id: u8) -> (res: Result<Self, ClubIdError>)
        ensures
            is_club_number(club_id as int) ==> res == Ok::<Self, ClubIdError>(Self::from_number(club_id)),
            !is_club_number(club_id as int) ==> res == Err::<Self, ClubIdError>(ClubIdError(club_id)),
    {
        if Self::MIN <= club_id && club_id <= Self::MAX {
            Ok(ClubId(club_id))
        } else {
            Err(ClubIdError(club_id))
        }
    }

    /// The text that `Display` gives: the number of the club.
    pub fn to_string(&self) -> (s: String)
        ensures
            s@ == decimal(self.spec_value() as int),
    {
        decimal_string(self.0 as i64)
    }
}

impl TryFrom<u8> for ClubId {
    type Error = ClubIdError;

    fn try_from(value: u8) -> (res: Result<Self, Self::Error>) {
        Self::new(value)
    }
}

impl vstd::std_specs::convert::TryFromSpecImpl<u8> for ClubId {
    open spec fn obeys_try_from_spec() -> bool {
        true
    }

    open spec fn try_from_spec(v: u8) -> Result<Self, Self::Error> {
        if is_club_number(v as int) {
            Ok(Self::from_number(v))
        } else {
            Err(ClubIdError(v))
        }
    }
}

impl PartialEq<u8> for ClubId {
    fn eq(&self, other: &u8) -> (res: bool) {
        self.0 == *other
    }
}

impl vstd::std_specs::cmp::PartialEqSpecImpl<u8> for ClubId {
    open spec fn obeys_eq_spec() -> bool {
        true
    }

    open spec fn eq_spec(&self, other: &u8) -> bool {
        self.spec_value() == *other
    }
}

impl PartialEq<ClubId> for u8 {
    fn eq(&self, other: &ClubId) -> (res: bool) {
        *self == other.0
    }
}

impl vstd::std_specs::cmp::PartialEqSpecImpl<ClubId> for u8 {
    open spec fn obeys_eq_spec() -> bool {
        true
    }

    open spec fn eq_spec(&self, other: &ClubId) -> bool {
        *self == other.spec_value()
    }
}

impl core::ops::Deref for ClubId {
    type Target = u8;

    fn deref(&self) -> (r: &u8)
        ensures
            *r == self.spec_value(),
            is_club_number(*r as int),
    {
        proof { use_type_invariant(self); }
        &self.0
    }
}

} // verus!
