//! The `/captains` command: who each manager of a league captained this game week.
use crate::text::texts;
use crate::types::PlayerId;
use vstd::prelude::*;

verus! {

/// A manager's captain: the manager's name, the player's id and the player's name.
pub type Captain = (String, PlayerId, String);

/// The line of one manager: `**manager** captained **player**`.
pub open spec fn captain_line(c: Captain) -> Seq<char> {
    "**"@ + c.0@ + "** captained **"@ + c.2@ + "**"@
}

/// One line per manager, in the order given.
pub fn get_captain_rows(captains: &Vec<Captain>) -> (rows: Vec<String>)
    ensures
        texts(rows@) == captains@.map_values(|c: Captain| captain_line(c)),
{
    let ghost s = captains@;
    let mut rows: Vec<String> = Vec::new();
    let mut i: usize = 0;
    while i < captains.len()
        invariant
            s == captains@,
            0 <= i <= s.len(),
            texts(rows@) == s.take(i as int).map_values(|c: Captain| captain_line(c)),
        decreases s.len() - i,
    {
        let mut line = String::from_str("**");
        line.append(captains[i].0.as_str());
        line.append("** captained **");
        line.append(captains[i].2.as_str());
        line.append("**");
        let ghost before = rows@;
        rows.push(line);
        assert(texts(rows@) =~= texts(before).push(line@));
        assert(s.take(i + 1).map_values(|c: Captain| captain_line(c)) =~= s.take(i as int).map_values(
            |c: Captain| captain_line(c),
        ).push(captain_line(s[i as int])));
        i = i + 1;
    }
    assert(s.take(s.len() as int) =~= s);
    rows
}

} // verus!
