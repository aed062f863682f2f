//! The rows of the `/whohas` command: which managers of a league own a player, or own players
//! of a club, in the current game week.
use crate::text::{decimal, joined, push_decimal, text_less, text_lt, texts, lemma_text_lt_total, lemma_text_lt_transitive};
use crate::types::GameWeek;
use vstd::prelude::*;

verus! {

/// A manager who owns the player: manager's name, team name, captain, vice captain, multiplier.
pub type Owner = (String, String, bool, bool, i16);

/// The note on an owner's line: benched (multiplier 0), triple captain (multiplier 3), or none.
pub open spec fn owner_status(multiplier: i16) -> Seq<char> {
    if multiplier == 0 {
        "(Benched)"@
    } else if multiplier == 3 {
        "(Triple Captain)"@
    } else {
        ""@
    }
}

/// The line of one owner: `- **manager** (team) note`.
pub open spec fn owner_line(o: Owner) -> Seq<char> {
    "- **"@ + o.0@ + "** ("@ + o.1@ + ") "@ + owner_status(o.4)
}

/// The lines of the owners with the given captaincy, in the order given.
pub open spec fn owner_lines(s: Seq<Owner>, captain: bool, vice_captain: bool) -> Seq<Seq<char>>
    decreases s.len(),
{
    if s.len() == 0 {
        Seq::empty()
    } else if s.last().2 == captain && s.last().3 == vice_captain {
        owner_lines(s.drop_last(), captain, vice_captain).push(owner_line(s.last()))
    } else {
        owner_lines(s.drop_last(), captain, vice_captain)
    }
}

/// A labelled section: the label and the owners' lines, or nothing when there are no such owners.
pub open spec fn owner_section(s: Seq<Owner>, captain: bool, vice_captain: bool, label: Seq<char>) -> Seq<Seq<char>> {
    let lines = owner_lines(s, captain, vice_captain);
    if lines.len() == 0 {
        Seq::empty()
    } else {
        seq![label] + lines
    }
}

/// The rows for a player: a heading, then the captains, the vice captains and the other owners,
/// each under its label; a single line when no one owns the player. Owners marked both captain
/// and vice captain fall in no section.
pub open spec fn whohas_player_lines(player_name: Seq<char>, game_week: GameWeek, s: Seq<Owner>) -> Seq<Seq<char>> {
    let gw = decimal(game_week.spec_value() as int);
    if s.len() == 0 {
        seq!["No one has "@ + player_name + " in **GW"@ + gw + "**."@]
    } else {
        seq!["**__"@ + player_name + " owners in GW"@ + gw + "__**\n"@]
            + owner_section(s, true, false, "**__Captained__**"@)
            + owner_section(s, false, true, "**__Vice Captained__**"@)
            + owner_section(s, false, false, "**__Regular__**"@)
    }
}

fn push_owner_section(
    rows: &mut Vec<String>,
    owners: &Vec<Owner>,
    captain: bool,
    vice_captain: bool,
    label: &str,
)
    ensures
        texts(final(rows)@) == texts(old(rows)@) + owner_section(owners@, captain, vice_captain, label@),
{
    let ghost s = owners@;
    let mut lines: Vec<String> = Vec::new();
    let mut i: usize = 0;
    while i < owners.len()
        invariant
            s == owners@,
            0 <= i <= s.len(),
            texts(lines@) == owner_lines(s.take(i as int), captain, vice_captain),
        decreases s.len() - i,
    {
        assert(s.take(i + 1).drop_last() =~= s.take(i as int));
        assert(s.take(i + 1).last() == s[i as int]);
        let o = &owners[i];
        if o.2 == captain && o.3 == vice_captain {
            let mut line = String::from_str("- **");
            line.append(o.0.as_str());
            line.append("** (");
            line.append(o.1.as_str());
            line.append(") ");
            let status = if o.4 == 0 {
                "(Benched)"
            } else if o.4 == 3 {
                "(Triple Captain)"
            } else {
                ""
            };
            line.append(status);
            let ghost before = lines@;
            lines.push(line);
            assert(texts(lines@) =~= texts(before).push(line@));
        }
        i = i + 1;
    }
    assert(s.take(s.len() as int) =~= s);
    if lines.len() > 0 {
        let ghost before = rows@;
        rows.push(label.to_owned());
        let mut j: usize = 0;
        let ghost mid = rows@;
        while j < lines.len()
            invariant
                0 <= j <= lines.len(),
                texts(rows@) == texts(mid) + texts(lines@).take(j as int),
            decreases lines.len() - j,
        {
            let ghost r = rows@;
            rows.push(lines[j].clone());
            assert(texts(rows@) =~= texts(r).push(lines@[j as int]@));
            assert(texts(lines@).take(j + 1) =~= texts(lines@).take(j as int).push(lines@[j as int]@));
            j = j + 1;
        }
        assert(texts(lines@).take(lines.len() as int) =~= texts(lines@));
        assert(texts(mid) =~= texts(before).push(label@));
        assert(texts(rows@) =~= texts(before) + (seq![label@] + texts(lines@)));
    } else {
        assert(texts(lines@).len() == 0);
        assert(texts(rows@) =~= texts(old(rows)@) + owner_section(s, captain, vice_captain, label@));
    }
}

/// Who owns a player in the league: the rows of `whohas_player_lines`.
pub fn get_whohas_player_rows(player_name: &str, game_week: GameWeek, owners: &Vec<Owner>) -> (rows: Vec<String>)
    ensures
        texts(rows@) == whohas_player_lines(player_name@, game_week, owners@),
{
    let mut rows: Vec<String> = Vec::new();
    if owners.len() == 0 {
        let mut line = String::from_str("No one has ");
        line.append(player_name);
        line.append(" in **GW");
        push_decimal(&mut line, *game_week as i64);
        line.append("**.");
        rows.push(line);
        assert(texts(rows@) =~= whohas_player_lines(player_name@, game_week, owners@));
        return rows;
    }
    let mut heading = String::from_str("**__");
    heading.append(player_name);
    heading.append(" owners in GW");
    push_decimal(&mut heading, *game_week as i64);
    heading.append("__**\n");
    rows.push(heading);
    assert(texts(rows@) =~= seq![heading@]);
    push_owner_section(&mut rows, owners, true, false, "**__Captained__**");
    push_owner_section(&mut rows, owners, false, true, "**__Vice Captained__**");
    push_owner_section(&mut rows, owners, false, false, "**__Regular__**");
    rows
}

/// A manager who owns a player of the club: the player's name, the manager's name, the team name.
pub type ClubOwner = (String, String, String);

/// The managers who own the named player, as `manager (team)`, in the order given.
pub open spec fn club_player_owners(s: Seq<ClubOwner>, player: Seq<char>) -> Seq<Seq<char>>
    decreases s.len(),
{
    if s.len() == 0 {
        Seq::empty()
    } else if s.last().0@ == player {
        club_player_owners(s.drop_last(), player).push(s.last().1@ + " ("@ + s.last().2@ + ")"@)
    } else {
        club_player_owners(s.drop_last(), player)
    }
}

/// The line of one of the club's players: `- **player:** owners`.
pub open spec fn club_player_line(s: Seq<ClubOwner>, player: Seq<char>) -> Seq<char> {
    "- **"@ + player + ":** "@ + joined(club_player_owners(s, player), ", "@)
}

/// The names strictly increase in the order of strings.
pub open spec fn names_increasing(names: Seq<Seq<char>>) -> bool {
    forall|a: int, b: int| 0 <= a < b < names.len() ==> text_lt(#[trigger] names[a], #[trigger] names[b])
}

/// `names` holds exactly the player names that occur in `s`.
pub open spec fn covers_names(names: Seq<Seq<char>>, s: Seq<ClubOwner>) -> bool {
    &&& forall|k: int| 0 <= k < names.len() ==> exists|j: int| 0 <= j < s.len() && s[j].0@ == #[trigger] names[k]
    &&& forall|j: int| 0 <= j < s.len() ==> #[trigger] names.contains(s[j].0@)
}

/// The rows for a club: a heading, then a line per player of the club that someone owns, in
/// the order of their names, naming the owners; a single line when no one owns any.
pub open spec fn whohas_club_lines(club_name: Seq<char>, game_week: GameWeek, s: Seq<ClubOwner>, names: Seq<Seq<char>>) -> Seq<Seq<char>> {
    let gw = decimal(game_week.spec_value() as int);
    if s.len() == 0 {
        seq!["No one has anyone from "@ + club_name + " in **GW"@ + gw + "**."@]
    } else {
        seq!["**__"@ + club_name + " assets in GW"@ + gw + "__**\n"@]
            + names.map_values(|n: Seq<char>| club_player_line(s, n))
    }
}

/// The text of an optional string.
pub open spec fn opt_text(o: Option<String>) -> Option<Seq<char>> {
    match o {
        Some(s) => Some(s@),
        None => None,
    }
}

/// Whether `name` comes after `after` (every name does when `after` is `None`).
pub open spec fn name_after(after: Option<Seq<char>>, name: Seq<char>) -> bool {
    match after {
        Some(a) => text_lt(a, name),
        None => true,
    }
}

/// The position of the first player name after `after`, if any.
fn next_name(owners: &Vec<ClubOwner>, after: &Option<String>) -> (w: Option<usize>)
    ensures
        w matches Some(i) ==> {
            &&& i < owners@.len()
            &&& name_after(opt_text(*after), owners@[i as int].0@)
            &&& forall|j: int| 0 <= j < owners@.len() && name_after(opt_text(*after), #[trigger] owners@[j].0@)
                ==> !text_lt(owners@[j].0@, owners@[i as int].0@)
        },
        w is None ==> forall|j: int| 0 <= j < owners@.len() ==> !name_after(opt_text(*after), #[trigger] owners@[j].0@),
{
    let ghost aft = opt_text(*after);
    let mut best: Option<usize> = None;
    let mut i: usize = 0;
    while i < owners.len()
        invariant
            0 <= i <= owners@.len(),
            aft == opt_text(*after),
            best matches Some(b) ==> b < i && name_after(aft, owners@[b as int].0@),
            forall|j: int| 0 <= j < i && name_after(aft, #[trigger] owners@[j].0@) ==> (best matches Some(b)
                && !text_lt(owners@[j].0@, owners@[b as int].0@)),
        decreases owners@.len() - i,
    {
        let name = owners[i].0.as_str();
        let later = match after {
            Some(a) => text_less(a.as_str(), name),
            None => true,
        };
        if later {
            let better = match best {
                Some(b) => text_less(name, owners[b].0.as_str()),
                None => true,
            };
            if better {
                proof {
                    assert forall|j: int| 0 <= j < i && name_after(aft, #[trigger] owners@[j].0@) implies
                        !text_lt(owners@[j].0@, owners@[i as int].0@) by {
                        match best {
                            Some(b) => {
                                lemma_text_lt_total(owners@[j].0@, owners@[b as int].0@);
                                if text_lt(owners@[j].0@, owners@[i as int].0@) {
                                    lemma_text_lt_transitive(owners@[j].0@, owners@[i as int].0@, owners@[b as int].0@);
                                }
                            },
                            None => {},
                        }
                    }
                    lemma_text_lt_total(owners@[i as int].0@, owners@[i as int].0@);
                }
                best = Some(i);
            } else {
                proof {
                    let b = best->0;
                    lemma_text_lt_total(owners@[i as int].0@, owners@[b as int].0@);
                }
            }
        }
        i = i + 1;
    }
    best
}

fn club_player_row(owners: &Vec<ClubOwner>, player: &str) -> (line: String)
    ensures
        line@ == club_player_line(owners@, player@),
{
    let ghost s = owners@;
    let mut users = String::new();
    let mut any = false;
    let mut i: usize = 0;
    while i < owners.len()
        invariant
            s == owners@,
            0 <= i <= s.len(),
            users@ == joined(club_player_owners(s.take(i as int), player@), ", "@),
            any == (club_player_owners(s.take(i as int), player@).len() > 0),
        decreases s.len() - i,
    {
        assert(s.take(i + 1).drop_last() =~= s.take(i as int));
        assert(s.take(i + 1).last() == s[i as int]);
        let o = &owners[i];
        if o.0.as_str().to_owned() == player.to_owned() {
            let mut part = o.1.clone();
            part.append(" (");
            part.append(o.2.as_str());
            part.append(")");
            proof {
                let parts = club_player_owners(s.take(i as int), player@);
                assert(club_player_owners(s.take(i + 1), player@) == parts.push(part@));
                if parts.len() > 0 {
                    assert(parts.push(part@).drop_last() =~= parts);
                }
            }
            if any {
                users.append(", ");
            }
            users.append(part.as_str());
            any = true;
        }
        i = i + 1;
    }
    assert(s.take(s.len() as int) =~= s);
    let mut line = String::from_str("- **");
    line.append(player);
    line.append(":** ");
    line.append(users.as_str());
    line
}

/// Who owns players of a club in the league: the rows of `whohas_club_lines`.
pub fn get_whohas_club_rows(club_name: &str, game_week: GameWeek, owners: &Vec<ClubOwner>) -> (rows: Vec<String>)
    ensures
        exists|names: Seq<Seq<char>>|
            names_increasing(names) && covers_names(names, owners@)
                && texts(rows@) == whohas_club_lines(club_name@, game_week, owners@, names),
{
    let ghost s = owners@;
    let mut rows: Vec<String> = Vec::new();
    if owners.len() == 0 {
        let mut line = String::from_str("No one has anyone from ");
        line.append(club_name);
        line.append(" in **GW");
        push_decimal(&mut line, *game_week as i64);
        line.append("**.");
        rows.push(line);
        assert(texts(rows@) =~= whohas_club_lines(club_name@, game_week, s, Seq::empty()));
        assert(covers_names(Seq::empty(), s));
        assert(names_increasing(Seq::<Seq<char>>::empty()));
        return rows;
    }
    let mut heading = String::from_str("**__");
    heading.append(club_name);
    heading.append(" assets in GW");
    push_decimal(&mut heading, *game_week as i64);
    heading.append("__**\n");
    rows.push(heading);
    let ghost head = heading@;
    let ghost mut names: Seq<Seq<char>> = Seq::empty();
    let mut after: Option<String> = None;
    assert(texts(rows@) =~= seq![head] + names.map_values(|n: Seq<char>| club_player_line(s, n)));
    loop
        invariant
            s == owners@,
            s.len() > 0,
            head == "**__"@ + club_name@ + " assets in GW"@ + decimal(game_week.spec_value() as int) + "__**\n"@,
            names_increasing(names),
            after is None <==> names.len() == 0,
            after matches Some(a) ==> a@ == names.last(),
            forall|k: int| 0 <= k < names.len() ==> exists|j: int| 0 <= j < s.len() && s[j].0@ == #[trigger] names[k],
            forall|j: int| 0 <= j < s.len() && !name_after(opt_text(after), #[trigger] s[j].0@) ==> names.contains(s[j].0@),
            texts(rows@) == seq![head] + names.map_values(|n: Seq<char>| club_player_line(s, n)),
        decreases count_after(s, opt_text(after)),
    {
        match next_name(owners, &after) {
            None => {
                proof {
                    assert forall|j: int| 0 <= j < s.len() implies #[trigger] names.contains(s[j].0@) by {
                        assert(!name_after(opt_text(after), s[j].0@));
                    }
                    assert(texts(rows@) =~= whohas_club_lines(club_name@, game_week, s, names));
                }
                return rows;
            },
            Some(idx) => {
                let player = owners[idx].0.clone();
                let line = club_player_row(owners, player.as_str());
                let ghost before = rows@;
                let ghost old_names = names;
                rows.push(line);
                proof {
                    names = old_names.push(player@);
                    assert(texts(rows@) =~= texts(before).push(line@));
                    assert(names.map_values(|n: Seq<char>| club_player_line(s, n)) =~= old_names.map_values(
                        |n: Seq<char>| club_player_line(s, n),
                    ).push(club_player_line(s, player@)));
                    assert forall|a: int, b: int| 0 <= a < b < names.len() implies text_lt(#[trigger] names[a], #[trigger] names[b]) by {
                        if b == names.len() - 1 {
                            if a < old_names.len() - 1 {
                                assert(text_lt(old_names[a], old_names.last()));
                                lemma_text_lt_transitive(old_names[a], old_names.last(), player@);
                            }
                        } else {
                            assert(names[a] == old_names[a]);
                            assert(names[b] == old_names[b]);
                        }
                    }
                    assert forall|j: int| 0 <= j < s.len() && !name_after(Some(player@), #[trigger] s[j].0@) implies names.contains(s[j].0@) by {
                        lemma_text_lt_total(player@, s[j].0@);
                        if s[j].0@ == player@ {
                            assert(names[names.len() - 1] == player@);
                        } else {
                            assert(text_lt(s[j].0@, player@));
                            if name_after(opt_text(after), s[j].0@) {
                                assert(false);
                            }
                            assert(old_names.contains(s[j].0@));
                            let k = choose|k: int| 0 <= k < old_names.len() && old_names[k] == s[j].0@;
                            assert(names[k] == s[j].0@);
                        }
                    }
                    assert forall|k: int| 0 <= k < names.len() implies exists|j: int| 0 <= j < s.len() && s[j].0@ == #[trigger] names[k] by {
                        if k < old_names.len() {
                            assert(names[k] == old_names[k]);
                        } else {
                            assert(s[idx as int].0@ == names[k]);
                        }
                    }
                    assert forall|j: int| 0 <= j < s.len() && name_after(Some(player@), #[trigger] s[j].0@) implies
                        name_after(opt_text(after), s[j].0@) by {
                        match after {
                            Some(a) => {
                                lemma_text_lt_transitive(a@, player@, s[j].0@);
                            },
                            None => {},
                        }
                    }
                    lemma_text_lt_total(player@, player@);
                    lemma_count_after_decreases(s, opt_text(after), Some(player@), idx as int);
                }
                after = Some(player);
            },
        }
    }
}

/// How many entries of `s` have a player name after `after`.
pub open spec fn count_after(s: Seq<ClubOwner>, after: Option<Seq<char>>) -> nat
    decreases s.len(),
{
    if s.len() == 0 {
        0
    } else {
        count_after(s.drop_last(), after) + if name_after(after, s.last().0@) { 1nat } else { 0nat }
    }
}

proof fn lemma_count_after_decreases(s: Seq<ClubOwner>, old_after: Option<Seq<char>>, new_after: Option<Seq<char>>, j0: int)
    requires
        forall|j: int| 0 <= j < s.len() && name_after(new_after, #[trigger] s[j].0@) ==> name_after(old_after, s[j].0@),
        0 <= j0 < s.len(),
        name_after(old_after, s[j0].0@),
        !name_after(new_after, s[j0].0@),
    ensures
        count_after(s, new_after) < count_after(s, old_after),
    decreases s.len(),
{
    lemma_count_after_mono(s.drop_last(), old_after, new_after);
    if j0 < s.len() - 1 {
        assert(s.drop_last()[j0] == s[j0]);
        lemma_count_after_decreases(s.drop_last(), old_after, new_after, j0);
    }
}

proof fn lemma_count_after_mono(s: Seq<ClubOwner>, old_after: Option<Seq<char>>, new_after: Option<Seq<char>>)
    requires
        forall|j: int| 0 <= j < s.len() && name_after(new_after, #[trigger] s[j].0@) ==> name_after(old_after, s[j].0@),
    ensures
        count_after(s, new_after) <= count_after(s, old_after),
    decreases s.len(),
{
    if s.len() > 0 {
        assert forall|j: int| 0 <= j < s.drop_last().len() && name_after(new_after, #[trigger] s.drop_last()[j].0@) implies name_after(old_after, s.drop_last()[j].0@) by {
            assert(s.drop_last()[j] == s[j]);
        }
        lemma_count_after_mono(s.drop_last(), old_after, new_after);
        assert(s.last() == s[s.len() - 1]);
    }
}

} // verus!
