use crate::text::{decimal, decimal_string};
use vstd::prelude::*;

verus! {

/// A classic mini league.
#[derive(Debug, Clone, Copy, PartialEq, Eq, Structural)]
pub struct LeagueId(pub u32);

impl LeagueId {
    pub fn new(id: u32) -> (l: Self)
        ensures
            l.0 == id,
    {
        Self(id)
    }

    /// The text that `Display` gives: the id.
    pub fn to_string(&self) -> (s: String)
        ensures
            s@ == decimal(self.0 as int),
    {
        decimal_string(self.0 as i64)
    }
}

} // verus!
