//! The `/transfers` command: the transfers teams made in a game week, per team.
use super::differentials::{opponents_or_na, opponents_text};
use crate::groups::{is_grouping, lemma_grouping_push};
use crate::images::colours::{GREY_COLOUR, PURPLE_COLOUR};
use crate::images::differentials::team_heading;
use crate::images::player_card::{new_card, CardColours, PlayerCard};
use crate::images::{PlayerGameInfo, PlayerInfo, Transfers, TransfersKey};
use crate::text::{decimal, push_decimal, texts};
use crate::types::GameWeek;
use vstd::prelude::*;

verus! {

/// A transfer as the database gives it: the team and manager, and the players in and out
/// with their points, minutes and opponents in the game week.
#[derive(Debug)]
pub struct TransferRecord {
    pub user_first_name: String,
    pub user_last_name: String,
    pub name: String,
    pub player_in_name: String,
    pub player_in_code: i32,
    pub player_in_opponents: Option<String>,
    pub player_in_points: i16,
    pub player_in_minutes: i16,
    pub player_out_name: String,
    pub player_out_code: i32,
    pub player_out_opponents: Option<String>,
    pub player_out_points: i16,
    pub player_out_minutes: i16,
}

/// What a transfer card shows: the opponents when the player has not played, else the points.
pub open spec fn transfer_text(opponents: Option<String>, points: i16, minutes: i16) -> Seq<char> {
    if minutes == 0 {
        opponents_or_na(opponents)
    } else {
        decimal(points as int)
    }
}

/// A transfer card is greyed out when the player has not played.
pub open spec fn transfer_colour(minutes: i16) -> Seq<char> {
    if minutes == 0 {
        GREY_COLOUR@
    } else {
        PURPLE_COLOUR@
    }
}

/// The card of a transferred player showing `text`, coloured by whether the player played.
pub open spec fn transfer_card_of(name: Seq<char>, code: i32, text: String, minutes: i16) -> PlayerCard {
    let fresh = new_card(name, code as u32, seq![PlayerGameInfo::FreeText(text)], false, false);
    PlayerCard { colours: CardColours { status_active_bg: transfer_colour(minutes), ..fresh.colours }, ..fresh }
}

/// `card` is the transfer card of the player.
pub open spec fn is_transfer_card(
    card: PlayerCard,
    name: Seq<char>,
    code: i32,
    opponents: Option<String>,
    points: i16,
    minutes: i16,
) -> bool {
    exists|text: String|
        text@ == transfer_text(opponents, points, minutes) && card == #[trigger] transfer_card_of(
            name,
            code,
            text,
            minutes,
        )
}

/// The heading of the record's team.
pub open spec fn transfer_heading(r: TransferRecord) -> Seq<char> {
    team_heading(r.user_first_name@, r.user_last_name@, r.name@)
}

/// The record's pair of cards, the player out first, is `pair`.
pub open spec fn is_transfer_pair(pair: (PlayerInfo, PlayerInfo), r: TransferRecord) -> bool {
    &&& is_transfer_card(pair.0@, r.player_out_name@, r.player_out_code, r.player_out_opponents,
        r.player_out_points, r.player_out_minutes)
    &&& is_transfer_card(pair.1@, r.player_in_name@, r.player_in_code, r.player_in_opponents,
        r.player_in_points, r.player_in_minutes)
}

/// The card of a transferred player.
pub fn transfer_card(name: String, code: i32, opponents: &Option<String>, points: i16, minutes: i16) -> (c:
    PlayerInfo)
    ensures
        is_transfer_card(c@, name@, code, *opponents, points, minutes),
{
    let text = if minutes == 0 {
        opponents_text(opponents)
    } else {
        let mut s = String::new();
        push_decimal(&mut s, points as i64);
        s
    };
    let ghost t = text;
    let mut games: Vec<PlayerGameInfo> = Vec::new();
    games.push(PlayerGameInfo::FreeText(text));
    assert(games@ =~= seq![PlayerGameInfo::FreeText(t)]);
    let colour = if minutes == 0 {
        GREY_COLOUR
    } else {
        PURPLE_COLOUR
    };
    let mut card = PlayerInfo::new(name, code as u32, games, false, false);
    card.status_active_bg_color(colour.to_owned());
    assert(card@ == transfer_card_of(name@, code, t, minutes));
    card
}

/// The transfers of the records, gathered per team: one entry per team heading in the order
/// the teams first occur, each with its pairs of cards (player out, player in) in the order given.
pub fn get_transfers_data(records: &Vec<TransferRecord>) -> (t: Transfers)
    ensures
        t.wf(),
        exists|pairs: Seq<(Seq<char>, (PlayerInfo, PlayerInfo))>|
            {
                &&& pairs.len() == records@.len()
                &&& forall|j: int|
                    0 <= j < pairs.len() ==> (#[trigger] pairs[j]).0 == transfer_heading(records@[j])
                        && is_transfer_pair(pairs[j].1, records@[j])
                &&& is_grouping(pairs, t.user_to_transfers@)
            },
{
    let ghost s = records@;
    let mut transfers = Transfers::new();
    let ghost mut pairs: Seq<(Seq<char>, (PlayerInfo, PlayerInfo))> = Seq::empty();
    let mut i: usize = 0;
    while i < records.len()
        invariant
            s == records@,
            0 <= i <= s.len(),
            transfers.wf(),
            pairs.len() == i,
            forall|j: int|
                0 <= j < i ==> (#[trigger] pairs[j]).0 == transfer_heading(s[j]) && is_transfer_pair(
                    pairs[j].1,
                    s[j],
                ),
            is_grouping(pairs, transfers.user_to_transfers@),
        decreases s.len() - i,
    {
        let r = &records[i];
        let key = TransfersKey {
            team_name: r.name.clone(),
            user_first_name: r.user_first_name.clone(),
            user_last_name: r.user_last_name.clone(),
        };
        let transfer_in = transfer_card(
            r.player_in_name.clone(),
            r.player_in_code,
            &r.player_in_opponents,
            r.player_in_points,
            r.player_in_minutes,
        );
        let transfer_out = transfer_card(
            r.player_out_name.clone(),
            r.player_out_code,
            &r.player_out_opponents,
            r.player_out_points,
            r.player_out_minutes,
        );
        let ghost old_groups = transfers.user_to_transfers@;
        let ghost pair = (transfer_out, transfer_in);
        transfers = transfers.add_transfer(key, transfer_out, transfer_in);
        proof {
            let heading = transfer_heading(s[i as int]);
            lemma_grouping_push(pairs, old_groups, heading, pair, transfers.user_to_transfers@);
            let old_pairs = pairs;
            pairs = pairs.push((heading, pair));
            assert forall|j: int| 0 <= j < i + 1 implies (#[trigger] pairs[j]).0 == transfer_heading(s[j])
                && is_transfer_pair(pairs[j].1, s[j]) by {
                if j < i {
                    assert(pairs[j] == old_pairs[j]);
                }
            }
        }
        i = i + 1;
    }
    transfers
}

/// The title of the transfers reply: `Transfers for <name> in GW<week>`.
pub fn transfers_title(name: &str, game_week: GameWeek) -> (t: String)
    ensures
        t@ == "Transfers for "@ + name@ + " in GW"@ + decimal(game_week.spec_value() as int),
{
    let mut t = String::from_str("Transfers for ");
    t.append(name);
    t.append(" in GW");
    push_decimal(&mut t, *game_week as i64);
    t
}

/// The text reply when there is nothing to draw: `No transfers.` when no team made a
/// transfer; `None` when the transfers are drawn.
pub fn transfers_text_reply(data: &Transfers) -> (rows: Option<Vec<String>>)
    ensures
        rows is Some <==> data.user_to_transfers@.len() == 0,
        rows matches Some(r) ==> texts(r@) == seq!["No transfers."@],
{
    if data.user_to_transfers.len() == 0 {
        let rows = vec![String::from_str("No transfers.")];
        assert(texts(rows@) =~= seq!["No transfers."@]);
        Some(rows)
    } else {
        None
    }
}

} // verus!
