use crate::text::{decimal, push_decimal};
use vstd::prelude::*;

verus! {

/// A fixture of the season: an integer in `1..=380`.
#[derive(Debug, Clone, Copy, PartialEq, Eq, PartialOrd, Ord, Hash)]
pub struct FixtureId(u16);

/// The value given to `FixtureId::new` was outside `1..=380`.
#[derive(Debug, Clone, Copy, PartialEq, Eq)]
pub struct FixtureIdError(pub u16);

/// Whether `n` is the number of a fixture.
pub open spec fn is_fixture_number(n: int) -> bool {
    1 <= n <= 380
}

impl FixtureId {
    pub const MIN: u16 = 1;
    pub const MAX: u16 = 380;

    /// The number of the fixture.
    pub closed spec fn spec_value(self) -> u16 {
        self.0
    }

    /// Every fixture number lies in `1..=380`.
    #[verifier::type_invariant]
    pub closed spec fn wf(self) -> bool {
        is_fixture_number(self.0 as int)
    }

    /// The fixture with the given number (a fixture only for numbers in `1..=380`).
    pub closed spec fn from_number(n: u16) -> FixtureId {
        FixtureId(n)
    }

    pub broadcast proof fn lemma_from_number(n: u16)
        ensures
            #[trigger] Self::from_number(n).spec_value() == n,
            is_fixture_number(n as int) ==> Self::from_number(n).wf(),
    {
    }

    /// A fixture is determined by its number.
    pub broadcast proof fn lemma_number_determines(a: FixtureId, b: FixtureId)
        ensures
            #[trigger] a.spec_value() == #[trigger] b.spec_value() <==> a == b,
    {
    }

    pub fn new(fixture_id: u16) -> (res: Result<Self, FixtureIdError>)
        ensures
            is_fixture_number(fixture_id as int) ==> res == Ok::<Self, FixtureIdError>(Self::from_number(fixture_id)),
            !is_fixture_number(fixture_id as int) ==> res == Err::<Self, FixtureIdError>(FixtureIdError(fixture_id)),
    {
        if Self::MIN <= fixture_id && fixture_id <= Self::MAX {
            Ok(FixtureId(fixture_id))
        } else {
            Err(FixtureIdError(fixture_id))
        }
    }

    /// The text that `Display` gives: `GW` followed by the number of the fixture.
    pub fn to_string(&self) -> (s: String)
        ensures
            s@ == "GW"@ + decimal(self.spec_value() as int),
    {
        let mut s = String::from_str("GW");
        push_decimal(&mut s, self.0 as i64);
        s
    }
}

impl TryFrom<u16> for FixtureId {
    type Error = FixtureIdError;

    fn try_from(value: u16) -> (res: Result<Self, Self::Error>) {
        Self::new(value)
    }
}

impl vstd::std_specs::convert::TryFromSpecImpl<u16> for FixtureId {
    open spec fn obeys_try_from_spec() -> bool {
        true
    }

    open spec fn try_from_spec(v: u16) -> Result<Self, Self::Error> {
        if is_fixture_number(v as int) {
            Ok(Self::from_number(v))
        } else {
            Err(FixtureIdError(v))
        }
    }
}

impl PartialEq<u16> for FixtureId {
    fn eq(&self, other: &u16) -> (res: bool) {
        self.0 == *other
    }
}

impl vstd::std_specs::cmp::PartialEqSpecImpl<u16> for FixtureId {
    open spec fn obeys_eq_spec() -> bool {
        true
    }

    open spec fn eq_spec(&self, other: &u16) -> bool {
        self.spec_value() == *other
    }
}

impl PartialEq<FixtureId> for u16 {
    fn eq(&self, other: &FixtureId) -> (res: bool) {
        *self == other.0
    }
}

impl vstd::std_specs::cmp::PartialEqSpecImpl<FixtureId> for u16 {
    open spec fn obeys_eq_spec() -> bool {
        true
    }

    open spec fn eq_spec(&self, other: &FixtureId) -> bool {
        *self == other.spec_value()
    }
}

impl core::ops::Deref for FixtureId {
    type Target = u16;

    fn deref(&self) -> (r: &u16)
        ensures
            *r == self.spec_value(),
            is_fixture_number(*r as int),
    {
        proof { use_type_invariant(self); }
        &self.0
    }
}

} // verus!
