use crate::text::{decimal, decimal_string};
use vstd::prelude::*;

verus! {

/// A manager's team: the id the FPL site gives each entry (not a club).
#[derive(Debug, Clone, Copy, PartialEq, Eq, Structural, PartialOrd, Ord, Hash)]
pub struct TeamId(pub u32);

impl TeamId {
    pub fn new(id: u32) -> (p: Self)
        ensures
            p.0 == id,
    {
        Self(id)
    }

    pub fn as_u32(&self) -> (v: u32)
        ensures
            v == self.0,
    {
        self.0
    }

    /// The text that `Display` gives: the id.
    pub fn to_string(&self) -> (s: String)
        ensures
            s@ == decimal(self.0 as int),
    {
        decimal_string(self.0 as i64)
    }
}

impl From<u32> for TeamId {
    fn from(id: u32) -> (p: Self) {
        Self(id)
    }
}

impl vstd::std_specs::convert::FromSpecImpl<u32> for TeamId {
    open spec fn obeys_from_spec() -> bool {
        true
    }

    open spec fn from_spec(v: u32) -> Self {
        TeamId(v)
    }
}

impl From<TeamId> for u32 {
    fn from(id: TeamId) -> (v: Self) {
        id.0
    }
}

impl vstd::std_specs::convert::FromSpecImpl<TeamId> for u32 {
    open spec fn obeys_from_spec() -> bool {
        true
    }

    open spec fn from_spec(v: TeamId) -> Self {
        v.0
    }
}

impl core::ops::Deref for TeamId {
    type Target = u32;

    fn deref(&self) -> (r: &u32)
        ensures
            *r == self.0,
    {
        &self.0
    }
}

} // verus!
