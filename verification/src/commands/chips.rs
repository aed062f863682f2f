//! The rows of the `/chips` command: the chips managers played, per manager or per league.
use crate::sorting::{is_stable_sort_desc, sort_by_key_desc};
use crate::text::{decimal, joined, push_decimal, texts};
use crate::types::{is_chip_name, shown_chip, Chip, ParseChipError, TeamId};
use vstd::prelude::*;

verus! {

/// The line of one chip a manager played: `**GW<week>**: <chip>`.
pub open spec fn user_chip_line(chip: Seq<char>, game_week: i16) -> Seq<char> {
    "**GW"@ + decimal(game_week as int) + "**: "@ + chip
}

/// One manager's chips, given as chip name and game week: a line per chip, in the order given,
/// each chip under the name it is shown with.
/// Fails, with the first text that names no chip, when some text names none.
pub fn get_user_chip_rows(user_chips: &Vec<(String, i16)>) -> (res: Result<Vec<String>, ParseChipError>)
    ensures
        res matches Ok(rows) ==> {
            &&& forall|i: int| 0 <= i < user_chips@.len() ==> is_chip_name(#[trigger] user_chips@[i].0@)
            &&& texts(rows@) == user_chips@.map_values(|c: (String, i16)| user_chip_line(shown_chip(c.0@), c.1))
        },
        res matches Err(e) ==> exists|k: int|
            0 <= k < user_chips@.len() && !is_chip_name(#[trigger] user_chips@[k].0@)
                && e.spec_text() == user_chips@[k].0@
                && forall|i: int| 0 <= i < k ==> is_chip_name(#[trigger] user_chips@[i].0@),
        (forall|i: int| 0 <= i < user_chips@.len() ==> is_chip_name(#[trigger] user_chips@[i].0@)) ==> res is Ok,
{
    let ghost s = user_chips@;
    let mut rows: Vec<String> = Vec::new();
    let mut i: usize = 0;
    while i < user_chips.len()
        invariant
            s == user_chips@,
            0 <= i <= s.len(),
            forall|j: int| 0 <= j < i ==> is_chip_name(#[trigger] s[j].0@),
            texts(rows@) == s.take(i as int).map_values(|c: (String, i16)| user_chip_line(shown_chip(c.0@), c.1)),
        decreases s.len() - i,
    {
        let (chip_text, game_week) = (&user_chips[i].0, user_chips[i].1);
        match Chip::parse(chip_text.as_str()) {
            Ok(chip) => {
                let mut line = String::from_str("**GW");
                push_decimal(&mut line, game_week as i64);
                line.append("**: ");
                line.append(chip.pretty_name());
                proof {
                    Chip::lemma_shown_name(chip);
                }
                let ghost before = rows@;
                rows.push(line);
                assert(texts(rows@) =~= texts(before).push(line@));
                assert(s.take(i + 1).map_values(|c: (String, i16)| user_chip_line(shown_chip(c.0@), c.1)) =~= s.take(
                    i as int,
                ).map_values(|c: (String, i16)| user_chip_line(shown_chip(c.0@), c.1)).push(
                    user_chip_line(shown_chip(s[i as int].0@), s[i as int].1),
                ));
            },
            Err(e) => {
                return Err(e);
            },
        }
        i = i + 1;
    }
    assert(s.take(s.len() as int) =~= s);
    Ok(rows)
}

/// A chip played in the league: team, manager's name, team name, chip text, game week.
pub type LeagueChip = (TeamId, String, String, String, i16);

/// The chips of `team`, in the order given, each keyed by its game week negated, so that
/// sorting by key, largest first, puts the earliest game week first.
pub open spec fn team_chips(s: Seq<LeagueChip>, team: TeamId) -> Seq<(i64, LeagueChip)>
    decreases s.len(),
{
    if s.len() == 0 {
        Seq::empty()
    } else if s.last().0 == team {
        team_chips(s.drop_last(), team).push(((-(s.last().4 as int)) as i64, s.last()))
    } else {
        team_chips(s.drop_last(), team)
    }
}

/// The text of one chip in a league line: `**GW<week>** <chip>`, the chip under the name it is
/// shown with.
pub open spec fn league_chip_part(c: (i64, LeagueChip)) -> Seq<char> {
    "**GW"@ + decimal(c.1.4 as int) + "** "@ + shown_chip(c.1.3@)
}

/// A team's line: `**manager** (team)`, then its chips, earliest game week first. The names
/// are those of the team's earliest chip.
pub open spec fn league_chip_line(sorted: Seq<(i64, LeagueChip)>) -> Seq<char> {
    "**"@ + sorted[0].1.1@ + "** ("@ + sorted[0].1.2@ + ")\n- "@ + joined(
        sorted.map_values(|c: (i64, LeagueChip)| league_chip_part(c)),
        ", "@,
    )
}

/// `row` is the line of `team`: its chips in `s`, earliest game week first.
pub open spec fn is_team_line(s: Seq<LeagueChip>, team: TeamId, row: Seq<char>) -> bool {
    exists|sorted: Seq<(i64, LeagueChip)>| is_stable_sort_desc(team_chips(s, team), sorted) && row == league_chip_line(sorted)
}

/// The teams in the order they first appear in `s`.
pub open spec fn teams_in_order(teams: Seq<TeamId>, s: Seq<LeagueChip>) -> bool {
    &&& forall|a: int, b: int| 0 <= a < b < teams.len() ==> #[trigger] teams[a] != #[trigger] teams[b]
    &&& forall|j: int| 0 <= j < s.len() ==> #[trigger] teams.contains(s[j].0)
    &&& forall|k: int| 0 <= k < teams.len() ==> played_chip(s, #[trigger] teams[k])
}

/// Some chip in `s` was played by `team`.
pub open spec fn played_chip(s: Seq<LeagueChip>, team: TeamId) -> bool {
    exists|j: int| 0 <= j < s.len() && s[j].0 == team
}

fn push_team_line(rows: &mut Vec<String>, league_chips: &Vec<LeagueChip>, team: TeamId)
    requires
        played_chip(league_chips@, team),
    ensures
        final(rows)@.len() == old(rows)@.len() + 1,
        final(rows)@.drop_last() == old(rows)@,
        is_team_line(league_chips@, team, final(rows)@.last()@),
{
    let ghost s = league_chips@;
    let mut keyed: Vec<(i64, LeagueChip)> = Vec::new();
    let mut i: usize = 0;
    while i < league_chips.len()
        invariant
            s == league_chips@,
            0 <= i <= s.len(),
            keyed@ == team_chips(s.take(i as int), team),
        decreases s.len() - i,
    {
        assert(s.take(i + 1).drop_last() =~= s.take(i as int));
        assert(s.take(i + 1).last() == s[i as int]);
        if league_chips[i].0 == team {
            let c = &league_chips[i];
            let entry: LeagueChip = (c.0, c.1.clone(), c.2.clone(), c.3.clone(), c.4);
            keyed.push((-(c.4 as i64), entry));
        }
        i = i + 1;
    }
    assert(s.take(s.len() as int) =~= s);
    let ghost group = keyed@;
    proof {
        lemma_team_chips_nonempty(s, team);
    }
    let sorted = sort_by_key_desc(keyed);
    proof {
        let p = choose|p: Seq<int>| crate::sorting::is_stable_permutation(group, sorted@, p);
        assert(sorted@.len() == group.len());
    }
    let first = &sorted[0].1;
    let mut line = String::from_str("**");
    line.append(first.1.as_str());
    line.append("** (");
    line.append(first.2.as_str());
    line.append(")\n- ");
    let ghost header = line@;
    assert(header == "**"@ + sorted@[0].1.1@ + "** ("@ + sorted@[0].1.2@ + ")\n- "@);
    let mut chips = String::new();
    let mut k: usize = 0;
    while k < sorted.len()
        invariant
            0 <= k <= sorted@.len(),
            chips@ == joined(sorted@.take(k as int).map_values(|c: (i64, LeagueChip)| league_chip_part(c)), ", "@),
        decreases sorted@.len() - k,
    {
        let c = &sorted[k].1;
        let mut part = String::from_str("**GW");
        push_decimal(&mut part, c.4 as i64);
        part.append("** ");
        match Chip::parse(c.3.as_str()) {
            Ok(chip) => {
                part.append(chip.pretty_name());
                proof {
                    Chip::lemma_shown_name(chip);
                }
            },
            Err(_) => {
                part.append(c.3.as_str());
                proof {
                    Chip::lemma_shown_other(c.3@);
                }
            },
        }
        let ghost parts = sorted@.take(k as int).map_values(|c: (i64, LeagueChip)| league_chip_part(c));
        assert(sorted@.take(k + 1).map_values(|c: (i64, LeagueChip)| league_chip_part(c)) =~= parts.push(part@));
        if k > 0 {
            assert(parts.push(part@).drop_last() =~= parts);
            chips.append(", ");
        }
        chips.append(part.as_str());
        k = k + 1;
    }
    assert(sorted@.take(sorted@.len() as int) =~= sorted@);
    line.append(chips.as_str());
    assert(line@ == league_chip_line(sorted@));
    assert(is_stable_sort_desc(team_chips(s, team), sorted@));
    rows.push(line);
    assert(rows@.drop_last() =~= old(rows)@);
}

proof fn lemma_team_chips_nonempty(s: Seq<LeagueChip>, team: TeamId)
    requires
        exists|j: int| 0 <= j < s.len() && s[j].0 == team,
    ensures
        team_chips(s, team).len() > 0,
    decreases s.len(),
{
    if s.last().0 != team {
        let j = choose|j: int| 0 <= j < s.len() && s[j].0 == team;
        assert(s.drop_last()[j] == s[j]);
        lemma_team_chips_nonempty(s.drop_last(), team);
    }
}

/// A league's chips: one line per team that played a chip, in the order the teams first
/// appear, each listing the team's chips from the earliest game week on.
pub fn get_league_chip_rows(league_chips: &Vec<LeagueChip>) -> (rows: Vec<String>)
    ensures
        exists|teams: Seq<TeamId>| {
            &&& teams_in_order(teams, league_chips@)
            &&& rows@.len() == teams.len()
            &&& forall|k: int| 0 <= k < teams.len() ==> is_team_line(league_chips@, #[trigger] teams[k], rows@[k]@)
        },
{
    let ghost s = league_chips@;
    let mut rows: Vec<String> = Vec::new();
    let ghost mut teams: Seq<TeamId> = Seq::empty();
    let mut i: usize = 0;
    while i < league_chips.len()
        invariant
            s == league_chips@,
            0 <= i <= s.len(),
            rows@.len() == teams.len(),
            forall|a: int, b: int| 0 <= a < b < teams.len() ==> #[trigger] teams[a] != #[trigger] teams[b],
            forall|j: int| 0 <= j < i ==> #[trigger] teams.contains(s[j].0),
            forall|k: int| 0 <= k < teams.len() ==> exists|j: int| 0 <= j < i && s[j].0 == #[trigger] teams[k],
            forall|k: int| 0 <= k < teams.len() ==> is_team_line(s, #[trigger] teams[k], rows@[k]@),
        decreases s.len() - i,
    {
        let team = league_chips[i].0;
        let mut seen = false;
        let mut j: usize = 0;
        while j < i
            invariant
                s == league_chips@,
                0 <= j <= i < s.len(),
                team == s[i as int].0,
                seen == exists|m: int| 0 <= m < j && s[m].0 == team,
            decreases i - j,
        {
            if league_chips[j].0 == team {
                seen = true;
            }
            j = j + 1;
        }
        if !seen {
            let ghost old_rows = rows@;
            let ghost old_teams = teams;
            push_team_line(&mut rows, league_chips, team);
            proof {
                teams = old_teams.push(team);
                assert forall|a: int, b: int| 0 <= a < b < teams.len() implies #[trigger] teams[a] != #[trigger] teams[b] by {
                    if b == teams.len() - 1 {
                        let m = choose|m: int| 0 <= m < i && s[m].0 == old_teams[a];
                        assert(old_teams.contains(old_teams[a]));
                    }
                }
                assert forall|k: int| 0 <= k < teams.len() implies is_team_line(s, #[trigger] teams[k], rows@[k]@) by {
                    if k < old_teams.len() {
                        assert(rows@[k] == old_rows[k]);
                        assert(teams[k] == old_teams[k]);
                    }
                }
                assert forall|k: int| 0 <= k < teams.len() implies exists|m: int| 0 <= m < i + 1 && s[m].0 == #[trigger] teams[k] by {
                    if k < old_teams.len() {
                        assert(teams[k] == old_teams[k]);
                    } else {
                        assert(s[i as int].0 == teams[k]);
                    }
                }
                assert forall|m: int| 0 <= m < i + 1 implies #[trigger] teams.contains(s[m].0) by {
                    if m < i {
                        assert(old_teams.contains(s[m].0));
                        let k = choose|k: int| 0 <= k < old_teams.len() && old_teams[k] == s[m].0;
                        assert(teams[k] == s[m].0);
                    } else {
                        assert(teams[teams.len() - 1] == s[m].0);
                    }
                }
            }
        } else {
            proof {
                let m = choose|m: int| 0 <= m < i && s[m].0 == team;
                assert(teams.contains(s[m].0));
                assert forall|k: int| 0 <= k < teams.len() implies exists|m2: int| 0 <= m2 < i + 1 && s[m2].0 == #[trigger] teams[k] by {
                    let m2 = choose|m2: int| 0 <= m2 < i && s[m2].0 == teams[k];
                }
            }
        }
        i = i + 1;
    }
    assert(i == s.len());
    assert forall|k: int| 0 <= k < teams.len() implies played_chip(s, #[trigger] teams[k]) by {
        let j = choose|j: int| 0 <= j < i && s[j].0 == teams[k];
        assert(0 <= j < s.len() && s[j].0 == teams[k]);
    }
    assert forall|j: int| 0 <= j < s.len() implies #[trigger] teams.contains(s[j].0) by {
        assert(j < i);
    }
    assert(teams_in_order(teams, league_chips@));
    rows
}

} // verus!
