//! The rows of the `/hits` command: the points hits managers took, per manager or per league.
use crate::text::{decimal, joined, push_decimal, texts, trunc_div};
use vstd::prelude::*;

verus! {

/// The number of hits a transfer cost stands for: every hit costs 4 points.
pub open spec fn hits_of_cost(cost: int) -> int {
    trunc_div(cost, 4)
}

/// The hits of all the game weeks in `s`.
pub open spec fn total_hits(s: Seq<(i16, i16)>) -> int
    decreases s.len(),
{
    if s.len() == 0 {
        0
    } else {
        total_hits(s.drop_last()) + hits_of_cost(s.last().1 as int)
    }
}

/// The line of one game week: `**GW<week>** - <hits>`.
pub open spec fn user_hit_line(h: (i16, i16)) -> Seq<char> {
    "**GW"@ + decimal(h.0 as int) + "** - "@ + decimal(hits_of_cost(h.1 as int))
}

/// The closing line: the number of hits and the points they cost.
pub open spec fn total_line(total: int) -> Seq<char> {
    "\n**Total:** "@ + decimal(total) + " (-"@ + decimal(total * 4) + " points)"@
}

/// The rows for one manager, given the game weeks in which they took hits and what the hits cost.
pub open spec fn user_hit_lines(s: Seq<(i16, i16)>) -> Seq<Seq<char>> {
    if s.len() == 0 {
        seq!["Has not taken a hit"@]
    } else {
        seq!["**__Hits__**\n"@] + s.map_values(|h: (i16, i16)| user_hit_line(h)) + seq![total_line(total_hits(s))]
    }
}

/// The running total of hits fits in an `i16` all along, and so does the points it costs.
pub open spec fn user_hits_fit(s: Seq<(i16, i16)>) -> bool {
    &&& forall|k: int| 0 <= k <= s.len() ==> i16::MIN <= #[trigger] total_hits(s.take(k)) <= i16::MAX
    &&& i16::MIN <= total_hits(s) * 4 <= i16::MAX
}

/// One manager's hits: a line per game week (game week and number of hits), then the total and
/// the points it cost; a single line saying so when there were none.
pub fn get_user_hit_rows(user_hits: &Vec<(i16, i16)>) -> (rows: Vec<String>)
    requires
        user_hits_fit(user_hits@),
    ensures
        texts(rows@) == user_hit_lines(user_hits@),
{
    let ghost s = user_hits@;
    if user_hits.len() == 0 {
        let rows = vec![String::from_str("Has not taken a hit")];
        assert(texts(rows@) =~= user_hit_lines(s));
        return rows;
    }
    let mut rows: Vec<String> = Vec::new();
    rows.push(String::from_str("**__Hits__**\n"));
    let mut total: i16 = 0;
    let mut i: usize = 0;
    while i < user_hits.len()
        invariant
            s == user_hits@,
            user_hits_fit(s),
            0 <= i <= s.len(),
            total == total_hits(s.take(i as int)),
            texts(rows@) == seq!["**__Hits__**\n"@] + s.take(i as int).map_values(|h: (i16, i16)| user_hit_line(h)),
        decreases s.len() - i,
    {
        let (game_week, cost) = user_hits[i];
        let hits = cost / 4;
        assert(s.take(i + 1).drop_last() =~= s.take(i as int));
        assert(total_hits(s.take(i + 1)) == total_hits(s.take(i as int)) + hits_of_cost(cost as int));
        assert(i16::MIN <= total_hits(s.take(i + 1)) <= i16::MAX);
        total = total + hits;
        let mut line = String::from_str("**GW");
        push_decimal(&mut line, game_week as i64);
        line.append("** - ");
        push_decimal(&mut line, hits as i64);
        let ghost before = rows@;
        rows.push(line);
        assert(s.take(i + 1).map_values(|h: (i16, i16)| user_hit_line(h)) =~= s.take(i as int).map_values(
            |h: (i16, i16)| user_hit_line(h),
        ).push(user_hit_line(s[i as int])));
        assert(texts(rows@) =~= texts(before).push(line@));
        i = i + 1;
    }
    assert(s.take(s.len() as int) =~= s);
    let mut last = String::from_str("\n**Total:** ");
    push_decimal(&mut last, total as i64);
    last.append(" (-");
    push_decimal(&mut last, (total * 4) as i64);
    last.append(" points)");
    let ghost before = rows@;
    rows.push(last);
    assert(texts(rows@) =~= texts(before).push(last@));
    assert(texts(rows@) =~= user_hit_lines(s));
    rows
}

/// Whether `get_user_hit_rows` can count `user_hits` in `i16`: the running total of hits stays
/// in range, and so do the points the total costs.
pub fn user_hits_in_range(user_hits: &Vec<(i16, i16)>) -> (b: bool)
    ensures
        b == user_hits_fit(user_hits@),
{
    let ghost s = user_hits@;
    let mut total: i32 = 0;
    let mut i: usize = 0;
    assert(s.take(0) =~= Seq::<(i16, i16)>::empty());
    while i < user_hits.len()
        invariant
            s == user_hits@,
            0 <= i <= s.len(),
            total == total_hits(s.take(i as int)),
            forall|k: int| 0 <= k <= i ==> i16::MIN <= #[trigger] total_hits(s.take(k)) <= i16::MAX,
        decreases s.len() - i,
    {
        let cost = user_hits[i].1;
        assert(s.take(i + 1).drop_last() =~= s.take(i as int));
        total = total + (cost / 4) as i32;
        if total < -32768 || total > 32767 {
            assert(!(i16::MIN <= total_hits(s.take(i + 1)) <= i16::MAX));
            return false;
        }
        i = i + 1;
    }
    assert(s.take(s.len() as int) =~= s);
    -32768 <= total * 4 && total * 4 <= 32767
}

/// A manager's hits in one row of the league: `player (team) **hits**`.
pub open spec fn league_hit_part(h: (i16, String, String, i16)) -> Seq<char> {
    h.1@ + " ("@ + h.2@ + ") **"@ + decimal(hits_of_cost(h.3 as int)) + "**"@
}

/// The parts of the managers who took hits in game week `week`, in the order given.
pub open spec fn week_parts(s: Seq<(i16, String, String, i16)>, week: i16) -> Seq<Seq<char>>
    decreases s.len(),
{
    if s.len() == 0 {
        Seq::empty()
    } else if s.last().0 == week {
        week_parts(s.drop_last(), week).push(league_hit_part(s.last()))
    } else {
        week_parts(s.drop_last(), week)
    }
}

/// The line of one game week of the league.
pub open spec fn league_week_line(s: Seq<(i16, String, String, i16)>, week: i16) -> Seq<char> {
    "**GW"@ + decimal(week as int) + "** - "@ + joined(week_parts(s, week), ", "@)
}

/// Whether the weeks strictly increase.
pub open spec fn strictly_increasing(weeks: Seq<i16>) -> bool {
    forall|a: int, b: int| 0 <= a < b < weeks.len() ==> #[trigger] weeks[a] < #[trigger] weeks[b]
}

/// `weeks` holds exactly the game weeks that occur in `s`.
pub open spec fn covers_weeks(weeks: Seq<i16>, s: Seq<(i16, String, String, i16)>) -> bool {
    &&& forall|k: int| 0 <= k < weeks.len() ==> exists|j: int| 0 <= j < s.len() && s[j].0 == #[trigger] weeks[k]
    &&& forall|j: int| 0 <= j < s.len() ==> #[trigger] weeks.contains(s[j].0)
}

/// The rows for a league: a heading, then one line per game week in which someone took a hit,
/// earliest first, naming who took hits and how many; a single line saying so when no one did.
pub open spec fn league_hit_lines(s: Seq<(i16, String, String, i16)>, weeks: Seq<i16>) -> Seq<Seq<char>> {
    if s.len() == 0 {
        seq!["No one has taken a hit"@]
    } else {
        seq!["**__Hits__**\n"@] + weeks.map_values(|w: i16| league_week_line(s, w))
    }
}

fn league_week_row(league_hits: &Vec<(i16, String, String, i16)>, week: i16) -> (line: String)
    ensures
        line@ == league_week_line(league_hits@, week),
{
    let ghost s = league_hits@;
    let mut users = String::new();
    let mut any = false;
    let mut i: usize = 0;
    while i < league_hits.len()
        invariant
            s == league_hits@,
            0 <= i <= s.len(),
            users@ == joined(week_parts(s.take(i as int), week), ", "@),
            any == (week_parts(s.take(i as int), week).len() > 0),
        decreases s.len() - i,
    {
        assert(s.take(i + 1).drop_last() =~= s.take(i as int));
        if league_hits[i].0 == week {
            let entry = &league_hits[i];
            let mut part = entry.1.clone();
            part.append(" (");
            part.append(entry.2.as_str());
            part.append(") **");
            push_decimal(&mut part, (entry.3 / 4) as i64);
            part.append("**");
            proof {
                assert(s.take(i + 1).last() == s[i as int]);
                assert(part@ == league_hit_part(s[i as int]));
                assert(week_parts(s.take(i + 1), week) == week_parts(s.take(i as int), week).push(part@));
                let parts = week_parts(s.take(i as int), week);
                if parts.len() > 0 {
                    assert(parts.push(part@).drop_last() =~= parts);
                }
            }
            if any {
                users.append(", ");
            }
            users.append(part.as_str());
            any = true;
        } else {
            assert(s.take(i + 1).last() == s[i as int]);
        }
        i = i + 1;
    }
    assert(s.take(s.len() as int) =~= s);
    let mut line = String::from_str("**GW");
    push_decimal(&mut line, week as i64);
    line.append("** - ");
    line.append(users.as_str());
    line
}

/// Whether `week` comes after `after` (every week does when `after` is `None`).
pub open spec fn later_than(after: Option<i16>, week: i16) -> bool {
    match after {
        Some(a) => a < week,
        None => true,
    }
}

/// The earliest game week in `s` after `after`, if any.
fn next_week(league_hits: &Vec<(i16, String, String, i16)>, after: Option<i16>) -> (w: Option<i16>)
    ensures
        w matches Some(g) ==> {
            &&& exists|j: int| 0 <= j < league_hits@.len() && league_hits@[j].0 == g
            &&& later_than(after, g)
            &&& forall|j: int| 0 <= j < league_hits@.len() && later_than(after, #[trigger] league_hits@[j].0)
                ==> g <= league_hits@[j].0
        },
        w is None ==> forall|j: int| 0 <= j < league_hits@.len() ==> !later_than(after, #[trigger] league_hits@[j].0),
{
    let mut best: Option<i16> = None;
    let mut i: usize = 0;
    while i < league_hits.len()
        invariant
            0 <= i <= league_hits@.len(),
            best matches Some(g) ==> {
                &&& exists|j: int| 0 <= j < i && league_hits@[j].0 == g
                &&& later_than(after, g)
            },
            forall|j: int| 0 <= j < i && later_than(after, #[trigger] league_hits@[j].0) ==> (best matches Some(g) && g <= league_hits@[j].0),
        decreases league_hits@.len() - i,
    {
        let w = league_hits[i].0;
        let later = match after {
            Some(a) => a < w,
            None => true,
        };
        if later {
            let better = match best {
                Some(b) => w < b,
                None => true,
            };
            if better {
                best = Some(w);
            }
        }
        i = i + 1;
    }
    best
}

/// A league's hits: a line per game week in which someone took a hit, earliest first, each
/// naming the managers (in the order given) and how many hits they took.
pub fn get_league_hit_rows(league_hits: &Vec<(i16, String, String, i16)>) -> (rows: Vec<String>)
    ensures
        exists|weeks: Seq<i16>|
            strictly_increasing(weeks) && covers_weeks(weeks, league_hits@)
                && texts(rows@) == league_hit_lines(league_hits@, weeks),
{
    let ghost s = league_hits@;
    if league_hits.len() == 0 {
        let rows = vec![String::from_str("No one has taken a hit")];
        assert(texts(rows@) =~= league_hit_lines(s, Seq::empty()));
        assert(covers_weeks(Seq::empty(), s));
        assert(strictly_increasing(Seq::<i16>::empty()));
        return rows;
    }
    let mut rows: Vec<String> = Vec::new();
    rows.push(String::from_str("**__Hits__**\n"));
    let ghost mut weeks: Seq<i16> = Seq::empty();
    let mut after: Option<i16> = None;
    loop
        invariant
            s == league_hits@,
            s.len() > 0,
            strictly_increasing(weeks),
            after is None <==> weeks.len() == 0,
            after matches Some(a) ==> a == weeks.last(),
            forall|k: int| 0 <= k < weeks.len() ==> exists|j: int| 0 <= j < s.len() && s[j].0 == #[trigger] weeks[k],
            forall|j: int| 0 <= j < s.len() && !later_than(after, #[trigger] s[j].0) ==> weeks.contains(s[j].0),
            texts(rows@) == seq!["**__Hits__**\n"@] + weeks.map_values(|w: i16| league_week_line(s, w)),
        decreases (match after { Some(a) => i16::MAX - a, None => 65536int }),
    {
        match next_week(league_hits, after) {
            None => {
                proof {
                    assert forall|j: int| 0 <= j < s.len() implies #[trigger] weeks.contains(s[j].0) by {
                        assert(!later_than(after, s[j].0));
                    }
                    assert(texts(rows@) =~= league_hit_lines(s, weeks));
                }
                return rows;
            },
            Some(week) => {
                let line = league_week_row(league_hits, week);
                let ghost before = rows@;
                let ghost old_weeks = weeks;
                rows.push(line);
                proof {
                    weeks = old_weeks.push(week);
                    assert(texts(rows@) =~= texts(before).push(line@));
                    assert(weeks.map_values(|w: i16| league_week_line(s, w)) =~= old_weeks.map_values(
                        |w: i16| league_week_line(s, w),
                    ).push(league_week_line(s, week)));
                    assert forall|j: int| 0 <= j < s.len() && !later_than(Some(week), #[trigger] s[j].0) implies weeks.contains(s[j].0) by {
                        if s[j].0 == week {
                            assert(weeks[weeks.len() - 1] == week);
                        } else {
                            match after {
                                Some(a) => {
                                    if a < s[j].0 {
                                        assert(week <= s[j].0);
                                    }
                                    assert(old_weeks.contains(s[j].0));
                                    let k = choose|k: int| 0 <= k < old_weeks.len() && old_weeks[k] == s[j].0;
                                    assert(weeks[k] == s[j].0);
                                },
                                None => {
                                    assert(week <= s[j].0);
                                },
                            }
                        }
                    }
                    assert forall|k: int| 0 <= k < weeks.len() implies exists|j: int| 0 <= j < s.len() && s[j].0 == #[trigger] weeks[k] by {
                        if k < old_weeks.len() {
                            assert(weeks[k] == old_weeks[k]);
                        }
                    }
                }
                after = Some(week);
            },
        }
    }
}

} // verus!
