//! The `/differentials` command: the players only one of the compared teams owns, per team.
use crate::groups::{is_grouping, lemma_grouping_push};
use crate::images::differentials::{differential_card, team_heading};
use crate::images::player_card::PlayerCard;
use crate::images::{DifferentialKey, Differentials, PlayerInfo};
use crate::text::{decimal, push_decimal};
use crate::types::GameWeek;
use vstd::prelude::*;

verus! {

/// A differential as the database gives it: the owning team and manager, and the player.
#[derive(Debug)]
pub struct DifferentialRecord {
    pub name: String,
    pub user_first_name: String,
    pub user_last_name: String,
    pub player_name: String,
    pub code: i32,
    pub is_captain: bool,
    pub is_vice_captain: bool,
    pub opponents: Option<String>,
}

/// The opponents text of a card: the opponents, or `N/A` when they are unknown.
pub open spec fn opponents_or_na(opponents: Option<String>) -> Seq<char> {
    match opponents {
        Some(o) => o@,
        None => "N/A"@,
    }
}

/// `card` is the card of the record's player, showing its opponents.
pub open spec fn is_differential_card(card: PlayerCard, r: DifferentialRecord) -> bool {
    exists|text: String|
        text@ == opponents_or_na(r.opponents) && card == differential_card(
            r.player_name@,
            r.code,
            r.is_captain,
            r.is_vice_captain,
            text,
        )
}

/// The heading of the record's team.
pub open spec fn differential_heading(r: DifferentialRecord) -> Seq<char> {
    team_heading(r.user_first_name@, r.user_last_name@, r.name@)
}

/// The text shown for unknown opponents.
pub fn opponents_text(opponents: &Option<String>) -> (s: String)
    ensures
        s@ == opponents_or_na(*opponents),
{
    match opponents {
        Some(o) => o.clone(),
        None => String::from_str("N/A"),
    }
}

/// The differentials of the records, gathered per team: one entry per team heading in the
/// order the teams first occur, each with its players' cards in the order given.
pub fn get_differentials_data(records: &Vec<DifferentialRecord>) -> (d: Differentials)
    ensures
        d.wf(),
        exists|pairs: Seq<(Seq<char>, PlayerInfo)>|
            {
                &&& pairs.len() == records@.len()
                &&& forall|j: int|
                    0 <= j < pairs.len() ==> (#[trigger] pairs[j]).0 == differential_heading(records@[j])
                        && is_differential_card(pairs[j].1@, records@[j])
                &&& is_grouping(pairs, d.user_to_differentials@)
            },
{
    let ghost s = records@;
    let mut d = Differentials::new();
    let ghost mut pairs: Seq<(Seq<char>, PlayerInfo)> = Seq::empty();
    let mut i: usize = 0;
    while i < records.len()
        invariant
            s == records@,
            0 <= i <= s.len(),
            d.wf(),
            pairs.len() == i,
            forall|j: int|
                0 <= j < i ==> (#[trigger] pairs[j]).0 == differential_heading(s[j])
                    && is_differential_card(pairs[j].1@, s[j]),
            is_grouping(pairs, d.user_to_differentials@),
        decreases s.len() - i,
    {
        let r = &records[i];
        let key = DifferentialKey {
            team_name: r.name.clone(),
            user_first_name: r.user_first_name.clone(),
            user_last_name: r.user_last_name.clone(),
        };
        let text = opponents_text(&r.opponents);
        let ghost old_groups = d.user_to_differentials@;
        let ghost t = text;
        d = d.add_differential(key, r.player_name.clone(), r.code, r.is_captain, r.is_vice_captain, text);
        proof {
            let heading = differential_heading(s[i as int]);
            let card = choose|card: PlayerInfo|
                card@ == differential_card(s[i as int].player_name@, s[i as int].code, s[i as int].is_captain,
                    s[i as int].is_vice_captain, t)
                && crate::groups::pushed_to_group(old_groups, heading, card, d.user_to_differentials@);
            lemma_grouping_push(pairs, old_groups, heading, card, d.user_to_differentials@);
            let old_pairs = pairs;
            pairs = pairs.push((heading, card));
            assert forall|j: int| 0 <= j < i + 1 implies (#[trigger] pairs[j]).0 == differential_heading(s[j])
                && is_differential_card(pairs[j].1@, s[j]) by {
                if j < i {
                    assert(pairs[j] == old_pairs[j]);
                }
            }
        }
        i = i + 1;
    }
    d
}

/// The users whose teams are compared when a single user is asked for: that user and the
/// caller.
pub fn compared_users(user: i64, caller: i64) -> (ids: Vec<i64>)
    ensures
        ids@ == seq![user, caller],
{
    let ids = vec![user, caller];
    assert(ids@ =~= seq![user, caller]);
    ids
}

/// The name of two compared users' teams: `<first> and <second>`.
pub fn compared_names(first: &str, second: &str) -> (n: String)
    ensures
        n@ == first@ + " and "@ + second@,
{
    let mut n = first.to_owned();
    n.append(" and ");
    n.append(second);
    n
}

/// The title of the differentials image: `Differentials for <name> in GW<week>`.
pub fn differentials_title(name: &str, game_week: GameWeek) -> (t: String)
    ensures
        t@ == "Differentials for "@ + name@ + " in GW"@ + decimal(game_week.spec_value() as int),
{
    let mut t = String::from_str("Differentials for ");
    t.append(name);
    t.append(" in GW");
    push_decimal(&mut t, *game_week as i64);
    t
}

} // verus!
