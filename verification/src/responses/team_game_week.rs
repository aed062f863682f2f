//! A team's picks for a game week, and the API's error body.
use crate::types::{PlayerId, PlayerPosition};
use vstd::prelude::*;

verus! {

/// The body the API answers with when it refuses a request.
#[derive(Debug)]
pub struct ErrorResponse {
    pub detail: String,
}

/// One pick of a team in a game week.
#[derive(Debug)]
pub struct Pick {
    pub element: PlayerId,
    pub position: i16,
    pub multiplier: i16,
    pub is_captain: bool,
    pub is_vice_captain: bool,
    pub element_type: PlayerPosition,
}

impl Pick {
    /// A pick on the bench (position 12 or later) that does not count (multiplier 0).
    pub fn is_benched(&self) -> (b: bool)
        ensures
            b == (self.multiplier == 0 && self.position >= 12),
    {
        self.multiplier == 0 && self.position >= 12
    }
}

} // verus!
