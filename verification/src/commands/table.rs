//! The `/table` command: a mini league's live standings, overall or for the current game week.
use crate::images::{TableData, TableRow};
use crate::sorting::{is_stable_sort_desc, sort_by_key_desc};
use vstd::prelude::*;

verus! {

/// A manager's confirmed and live points, as the database's `live_points` view holds them.
#[derive(Debug)]
pub struct LivePoints {
    pub player_first_name: String,
    pub player_last_name: String,
    pub name: String,
    pub discord_id: Option<i64>,
    pub week_points: i16,
    pub calculated_week_points: i64,
    pub overall_points: i16,
    pub calculated_overall_points: i64,
}

/// The standings over the whole season.
pub open spec fn overall_kind() -> Seq<char> {
    "Overall"@
}

/// The standings of the current game week.
pub open spec fn week_kind() -> Seq<char> {
    "Current Gameweek"@
}

/// The live points a manager is ranked by: those of the week for the week's standings,
/// otherwise those of the season.
pub open spec fn ranking_points(lp: LivePoints, kind: Seq<char>) -> i64 {
    if kind == week_kind() {
        lp.calculated_week_points
    } else {
        lp.calculated_overall_points
    }
}

/// The managers keyed by the points they are ranked by, in the order given.
pub open spec fn ranking_keys(live: Seq<LivePoints>, kind: Seq<char>) -> Seq<(i64, LivePoints)> {
    live.map_values(|lp: LivePoints| (ranking_points(lp, kind), lp))
}

/// `row` shows manager `lp` in the standings of `kind` (one of the two kinds), as seen by the
/// Discord user `caller`.
pub open spec fn is_table_row(row: TableRow, lp: LivePoints, kind: Seq<char>, caller: i64) -> bool {
    &&& row.name@ == lp.name@
    &&& row.team_name@ == lp.player_first_name@ + " "@ + lp.player_last_name@
    &&& kind == week_kind() ==> row.confirmed_points == lp.week_points as u16 && row.live_points
        == lp.calculated_week_points as u16
    &&& kind != week_kind() ==> row.confirmed_points == lp.overall_points as u16 && row.live_points
        == lp.calculated_overall_points as u16
    &&& row.caller == (lp.discord_id == Some(caller))
}

/// The title of the standings of `kind`.
pub open spec fn table_title(kind: Seq<char>) -> Seq<char> {
    kind + " League Standings"@
}

fn copy_live_points(lp: &LivePoints) -> (c: LivePoints)
    ensures
        c == *lp,
{
    LivePoints {
        player_first_name: lp.player_first_name.clone(),
        player_last_name: lp.player_last_name.clone(),
        name: lp.name.clone(),
        discord_id: lp.discord_id,
        week_points: lp.week_points,
        calculated_week_points: lp.calculated_week_points,
        overall_points: lp.overall_points,
        calculated_overall_points: lp.calculated_overall_points,
    }
}

/// The table of a league's standings of `kind`, "Overall" or "Current Gameweek": managers
/// from most live points down (ties keep the order given), the caller's row marked.
/// `None` when there is a manager to show and `kind` is neither of the two.
pub fn build_table_data(live_points: &Vec<LivePoints>, kind: &str, caller_discord_id: i64) -> (res:
    Option<TableData>)
    ensures
        res is None <==> (live_points@.len() > 0 && kind@ != overall_kind() && kind@ != week_kind()),
        res matches Some(data) ==> {
            &&& data.title@ == table_title(kind@)
            &&& exists|sorted: Seq<(i64, LivePoints)>|
                {
                    &&& is_stable_sort_desc(ranking_keys(live_points@, kind@), sorted)
                    &&& data.rows@.len() == sorted.len()
                    &&& forall|k: int|
                        0 <= k < sorted.len() ==> is_table_row(
                            #[trigger] data.rows@[k],
                            sorted[k].1,
                            kind@,
                            caller_discord_id,
                        )
                }
        },
{
    proof {
        reveal_strlit("Overall");
        reveal_strlit("Current Gameweek");
    }
    let is_week = crate::text::str_eq(kind, "Current Gameweek");
    let is_overall = crate::text::str_eq(kind, "Overall");
    let ghost live = live_points@;
    let ghost k = kind@;
    let mut keyed: Vec<(i64, LivePoints)> = Vec::new();
    let mut i: usize = 0;
    while i < live_points.len()
        invariant
            live == live_points@,
            0 <= i <= live.len(),
            is_week == (k == week_kind()),
            keyed@ == ranking_keys(live, k).take(i as int),
        decreases live.len() - i,
    {
        let lp = copy_live_points(&live_points[i]);
        let key = if is_week {
            lp.calculated_week_points
        } else {
            lp.calculated_overall_points
        };
        keyed.push((key, lp));
        assert(ranking_keys(live, k).take(i + 1) =~= ranking_keys(live, k).take(i as int).push(
            (key, live[i as int]),
        ));
        i = i + 1;
    }
    assert(ranking_keys(live, k).take(live.len() as int) =~= ranking_keys(live, k));
    let sorted = sort_by_key_desc(keyed);
    assert(sorted@.len() == live.len());
    let mut title = String::from_str(kind);
    title.append(" League Standings");
    let mut data = TableData::new(title);
    let mut j: usize = 0;
    while j < sorted.len()
        invariant
            0 <= j <= sorted@.len(),
            sorted@.len() == live.len(),
            live == live_points@,
            is_week == (k == week_kind()),
            is_overall == (k == overall_kind()),
            k == kind@,
            data.title@ == table_title(k),
            data.rows@.len() == j,
            j > 0 ==> is_week || is_overall,
            forall|m: int|
                0 <= m < j ==> is_table_row(#[trigger] data.rows@[m], sorted@[m].1, k, caller_discord_id),
        decreases sorted@.len() - j,
    {
        if !is_week && !is_overall {
            return None;
        }
        let lp = &sorted[j].1;
        let caller = match lp.discord_id {
            Some(id) => id == caller_discord_id,
            None => false,
        };
        let mut team_name = lp.player_first_name.clone();
        team_name.append(" ");
        team_name.append(lp.player_last_name.as_str());
        let (confirmed, live_pts) = if is_week {
            (#[verifier::truncate] (lp.week_points as u16), #[verifier::truncate] (lp.calculated_week_points as u16))
        } else {
            (#[verifier::truncate] (lp.overall_points as u16), #[verifier::truncate] (lp.calculated_overall_points as u16))
        };
        data.add_row(lp.name.clone(), team_name, confirmed, live_pts, caller);
        j = j + 1;
    }
    assert(is_stable_sort_desc(ranking_keys(live_points@, kind@), sorted@));
    Some(data)
}

} // verus!
