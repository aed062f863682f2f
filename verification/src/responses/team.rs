//! The classic mini leagues a team belongs to, from the team response.
use vstd::prelude::*;

verus! {

/// The classic leagues of a team.
#[derive(Debug)]
pub struct ClassicLeagues {
    pub classic: Vec<ClassicLeague>,
}

/// A classic league as the team response lists it: its id, the entry of its admin (none for
/// the public leagues), and how many teams it ranks.
#[derive(Debug, Clone, Copy)]
pub struct ClassicLeague {
    pub id: i32,
    pub admin_entry: Option<i32>,
    pub rank_count: i32,
}

} // verus!
