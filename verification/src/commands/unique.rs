//! The `/unique` command: the players of a manager that no other team of the league owns.
use super::differentials::{opponents_or_na, opponents_text};
use crate::images::player_card::PlayerCard;
use crate::images::unique::unique_card;
use crate::images::UniquePlayers;
use vstd::prelude::*;

verus! {

/// A unique player as the database gives it.
#[derive(Debug)]
pub struct UniqueRecord {
    pub web_name: String,
    pub code: i32,
    pub multiplier: i16,
    pub is_captain: bool,
    pub is_vice_captain: bool,
    pub opponents: Option<String>,
}

/// `card` is the card of the record's player, showing its opponents.
pub open spec fn is_unique_card(card: PlayerCard, r: UniqueRecord) -> bool {
    exists|text: String|
        text@ == opponents_or_na(r.opponents) && card == #[trigger] unique_card(
            r.web_name@,
            r.code as u32,
            r.multiplier,
            r.is_captain,
            r.is_vice_captain,
            text,
        )
}

/// The cards of the unique players, one per record, in the order given.
pub fn get_unique_players_data(records: &Vec<UniqueRecord>) -> (u: UniquePlayers)
    ensures
        u.players@.len() == records@.len(),
        forall|j: int| 0 <= j < records@.len() ==> is_unique_card((#[trigger] u.players@[j])@, records@[j]),
{
    let ghost s = records@;
    let mut unique = UniquePlayers::new();
    let mut i: usize = 0;
    while i < records.len()
        invariant
            s == records@,
            0 <= i <= s.len(),
            unique.players@.len() == i,
            forall|j: int| 0 <= j < i ==> is_unique_card((#[trigger] unique.players@[j])@, s[j]),
        decreases s.len() - i,
    {
        let r = &records[i];
        let text = opponents_text(&r.opponents);
        let ghost t = text;
        let ghost before = unique.players@;
        unique = unique.add_player(r.web_name.clone(), r.code as u32, r.multiplier, r.is_captain, r.is_vice_captain, text);
        proof {
            assert forall|j: int| 0 <= j < i + 1 implies is_unique_card((#[trigger] unique.players@[j])@, s[j]) by {
                if j < i {
                    assert(unique.players@[j] == unique.players@.drop_last()[j]);
                } else {
                    assert(unique.players@[j] == unique.players@.last());
                    assert(unique.players@[j]@ == unique_card(s[j].web_name@, s[j].code as u32, s[j].multiplier,
                        s[j].is_captain, s[j].is_vice_captain, t));
                }
            }
        }
        i = i + 1;
    }
    unique
}

} // verus!
