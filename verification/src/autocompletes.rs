//! The choices offered while a command's option is typed: fixed lists, the names that best
//! match what was typed, and the registered members whose name contains it.
use crate::sorting::{is_stable_sort_desc, sort_by_key_desc};
use fuzzy_matcher::FuzzyMatcher;
use vstd::prelude::*;

verus! {

/// The text in lower case, as `str::to_lowercase` gives it.
pub uninterp spec fn lowercase_of(s: Seq<char>) -> Seq<char>;

/// The score the skim matcher, in its default configuration, gives `choice` for `pattern`;
/// `None` when it does not match.
pub uninterp spec fn skim_score(choice: Seq<char>, pattern: Seq<char>) -> Option<i64>;

/// std's `str::to_lowercase`. The result is named; its length and contents are left unsaid.
#[verifier::external_body]
fn lowercase(s: &str) -> (r: String)
    ensures
        r@ == lowercase_of(s@),
{
    s.to_lowercase()
}

/// fuzzy_matcher's `SkimMatcherV2::default().fuzzy_match(choice, pattern)`. The result is
/// named; as its source shows, an empty pattern matches everything with score 0.
#[verifier::external_body]
fn skim_fuzzy_match(choice: &str, pattern: &str) -> (score: Option<i64>)
    ensures
        score == skim_score(choice@, pattern@),
        pattern@.len() == 0 ==> score == Some(0i64),
{
    fuzzy_matcher::skim::SkimMatcherV2::default().fuzzy_match(choice, pattern)
}

/// The most choices offered for a name typed.
pub const MAX_FUZZY_CHOICES: usize = 8;

/// The rows whose lower-case name matches the lower-case `partial`, each keyed by its score,
/// in the order given.
pub open spec fn scored_rows(rows: Seq<(String, i64)>, partial: Seq<char>) -> Seq<(i64, (String, i64))>
    decreases rows.len(),
{
    if rows.len() == 0 {
        Seq::empty()
    } else {
        let rest = scored_rows(rows.drop_last(), partial);
        match skim_score(lowercase_of(rows.last().0@), lowercase_of(partial)) {
            Some(s) => rest.push((s, rows.last())),
            None => rest,
        }
    }
}

/// `choices` are the best matches: the matching rows from the highest score down (ties in
/// the order given), at most `MAX_FUZZY_CHOICES` of them.
pub open spec fn is_best_matches(rows: Seq<(String, i64)>, partial: Seq<char>, choices: Seq<(String, i64)>) -> bool {
    exists|sorted: Seq<(i64, (String, i64))>|
        is_stable_sort_desc(scored_rows(rows, partial), sorted) && choices == sorted.take(
            if sorted.len() < MAX_FUZZY_CHOICES { sorted.len() as int } else { MAX_FUZZY_CHOICES as int },
        ).map_values(|x: (i64, (String, i64))| x.1)
}

/// The rows (name and id) whose names best match what was typed, ignoring case.
pub fn get_fuzzy_matches(partial: &str, rows: Vec<(String, i64)>) -> (choices: Vec<(String, i64)>)
    ensures
        is_best_matches(rows@, partial@, choices@),
{
    let ghost s = rows@;
    let partial_lower = lowercase(partial);
    let mut scored: Vec<(i64, (String, i64))> = Vec::new();
    let mut i: usize = 0;
    while i < rows.len()
        invariant
            s == rows@,
            0 <= i <= s.len(),
            partial_lower@ == lowercase_of(partial@),
            scored@ == scored_rows(s.take(i as int), partial@),
        decreases s.len() - i,
    {
        assert(s.take(i + 1).drop_last() =~= s.take(i as int));
        assert(s.take(i + 1).last() == s[i as int]);
        let name_lower = lowercase(rows[i].0.as_str());
        match skim_fuzzy_match(name_lower.as_str(), partial_lower.as_str()) {
            Some(score) => {
                scored.push((score, (rows[i].0.clone(), rows[i].1)));
            },
            None => {},
        }
        i = i + 1;
    }
    assert(s.take(s.len() as int) =~= s);
    let sorted = sort_by_key_desc(scored);
    let ghost ss = sorted@;
    let keep = if sorted.len() < MAX_FUZZY_CHOICES {
        sorted.len()
    } else {
        MAX_FUZZY_CHOICES
    };
    let mut choices: Vec<(String, i64)> = Vec::new();
    let mut j: usize = 0;
    while j < keep
        invariant
            ss == sorted@,
            keep <= ss.len(),
            0 <= j <= keep,
            choices@ == ss.take(j as int).map_values(|x: (i64, (String, i64))| x.1),
        decreases keep - j,
    {
        choices.push((sorted[j].1.0.clone(), sorted[j].1.1));
        assert(choices@ =~= ss.take(j + 1).map_values(|x: (i64, (String, i64))| x.1));
        j = j + 1;
    }
    choices
}

/// `needle` occurs in `hay` at position `i`.
pub open spec fn occurs_at(hay: Seq<char>, needle: Seq<char>, i: int) -> bool {
    0 <= i && i + needle.len() <= hay.len() && hay.subrange(i, i + needle.len()) == needle
}

/// `needle` occurs somewhere in `hay`.
pub open spec fn text_contains(hay: Seq<char>, needle: Seq<char>) -> bool {
    exists|i: int| occurs_at(hay, needle, i)
}

/// Whether `needle` occurs in `hay`.
pub fn contains_text(hay: &str, needle: &str) -> (b: bool)
    ensures
        b == text_contains(hay@, needle@),
{
    let h = hay.unicode_len();
    let n = needle.unicode_len();
    if n > h {
        proof {
            assert forall|i: int| !occurs_at(hay@, needle@, i) by {}
        }
        return false;
    }
    let mut i: usize = 0;
    while i <= h - n
        invariant
            h == hay@.len(),
            n == needle@.len(),
            n <= h,
            0 <= i <= h - n + 1,
            forall|k: int| 0 <= k < i ==> !occurs_at(hay@, needle@, k),
        decreases h - i,
    {
        let mut j: usize = 0;
        let mut same = true;
        while j < n
            invariant
                h == hay@.len(),
                n == needle@.len(),
                i + n <= h,
                0 <= j <= n,
                same == forall|m: int| 0 <= m < j ==> hay@[i + m] == needle@[m],
            decreases n - j,
        {
            if hay.get_char(i + j) != needle.get_char(j) {
                same = false;
            }
            j = j + 1;
        }
        if same {
            assert(hay@.subrange(i as int, i + n) =~= needle@);
            assert(occurs_at(hay@, needle@, i as int));
            return true;
        }
        proof {
            assert(!occurs_at(hay@, needle@, i as int)) by {
                if occurs_at(hay@, needle@, i as int) {
                    let m = choose|m: int| 0 <= m < n && hay@[i + m] != needle@[m];
                    assert(hay@.subrange(i as int, i + n)[m] == hay@[i + m]);
                }
            }
        }
        i = i + 1;
    }
    proof {
        assert forall|k: int| !occurs_at(hay@, needle@, k) by {
            if 0 <= k && k < i {
            }
        }
    }
    false
}

/// A member of the server: the display name, the user name and the user id.
pub type Member = (String, String, u64);

/// The most registered members offered.
pub const MAX_MEMBER_CHOICES: usize = 25;

/// How a member is shown: `display name (user name)`.
pub open spec fn member_label(m: Member) -> Seq<char> {
    m.0@ + " ("@ + m.1@ + ")"@
}

/// The member is registered and its label contains what was typed, ignoring case.
pub open spec fn member_offered(m: Member, registered: Seq<i64>, partial: Seq<char>) -> bool {
    &&& registered.contains(m.2 as i64)
    &&& text_contains(lowercase_of(member_label(m)), lowercase_of(partial))
}

/// The members offered, as label and id, in the order given.
pub open spec fn offered_members(members: Seq<Member>, registered: Seq<i64>, partial: Seq<char>) -> Seq<(Seq<char>, u64)>
    decreases members.len(),
{
    if members.len() == 0 {
        Seq::empty()
    } else {
        let rest = offered_members(members.drop_last(), registered, partial);
        if member_offered(members.last(), registered, partial) {
            rest.push((member_label(members.last()), members.last().2))
        } else {
            rest
        }
    }
}

/// The registered members whose label contains what was typed, ignoring case: the first
/// `MAX_MEMBER_CHOICES` of them, as label and user id.
pub fn get_registered_user_choices(members: &Vec<Member>, registered: &Vec<i64>, partial: &str) -> (choices: Vec<
    (String, u64),
>)
    ensures
        ({
            let all = offered_members(members@, registered@, partial@);
            choices@.map_values(|c: (String, u64)| (c.0@, c.1)) == all.take(
                if all.len() < MAX_MEMBER_CHOICES { all.len() as int } else { MAX_MEMBER_CHOICES as int },
            )
        }),
{
    let ghost s = members@;
    let partial_lower = lowercase(partial);
    let mut choices: Vec<(String, u64)> = Vec::new();
    let mut i: usize = 0;
    while i < members.len() && choices.len() < MAX_MEMBER_CHOICES
        invariant
            s == members@,
            0 <= i <= s.len(),
            partial_lower@ == lowercase_of(partial@),
            choices@.len() <= MAX_MEMBER_CHOICES,
            choices@.map_values(|c: (String, u64)| (c.0@, c.1)) == offered_members(s.take(i as int), registered@, partial@),
        decreases s.len() - i,
    {
        assert(s.take(i + 1).drop_last() =~= s.take(i as int));
        assert(s.take(i + 1).last() == s[i as int]);
        let m = &members[i];
        let id = m.2 as i64;
        let mut known = false;
        let mut k: usize = 0;
        while k < registered.len()
            invariant
                0 <= k <= registered@.len(),
                known == exists|q: int| 0 <= q < k && registered@[q] == id,
            decreases registered@.len() - k,
        {
            if registered[k] == id {
                known = true;
            }
            k = k + 1;
        }
        if known {
            let mut label = m.0.clone();
            label.append(" (");
            label.append(m.1.as_str());
            label.append(")");
            let label_lower = lowercase(label.as_str());
            if contains_text(label_lower.as_str(), partial_lower.as_str()) {
                let ghost before = choices@;
                choices.push((label, m.2));
                assert(choices@.map_values(|c: (String, u64)| (c.0@, c.1)) =~= before.map_values(
                    |c: (String, u64)| (c.0@, c.1),
                ).push((member_label(s[i as int]), s[i as int].2)));
            }
        } else {
            proof {
                assert(!registered@.contains(id));
            }
        }
        i = i + 1;
    }
    proof {
        lemma_offered_prefix(s, registered@, partial@, i as int);
    }
    choices
}

proof fn lemma_offered_grows(members: Seq<Member>, registered: Seq<i64>, partial: Seq<char>, a: int, b: int)
    requires
        0 <= a <= b <= members.len(),
    ensures
        offered_members(members.take(a), registered, partial).len() <= offered_members(members.take(b), registered, partial).len(),
        offered_members(members.take(b), registered, partial).take(offered_members(members.take(a), registered, partial).len() as int)
            == offered_members(members.take(a), registered, partial),
    decreases b - a,
{
    if b > a {
        lemma_offered_grows(members, registered, partial, a, b - 1);
        assert(members.take(b).drop_last() =~= members.take(b - 1));
        let x = offered_members(members.take(a), registered, partial);
        let y = offered_members(members.take(b - 1), registered, partial);
        let z = offered_members(members.take(b), registered, partial);
        assert(z.take(x.len() as int) =~= y.take(x.len() as int));
    } else {
        let x = offered_members(members.take(a), registered, partial);
        assert(x.take(x.len() as int) =~= x);
    }
}

/// Stopping at `i` members, either all were seen or enough were offered: either way the
/// offered ones are the first of all that would be.
proof fn lemma_offered_prefix(members: Seq<Member>, registered: Seq<i64>, partial: Seq<char>, i: int)
    requires
        0 <= i <= members.len(),
        i < members.len() ==> offered_members(members.take(i), registered, partial).len() >= MAX_MEMBER_CHOICES,
        offered_members(members.take(i), registered, partial).len() <= MAX_MEMBER_CHOICES,
    ensures
        ({
            let all = offered_members(members, registered, partial);
            offered_members(members.take(i), registered, partial) == all.take(
                if all.len() < MAX_MEMBER_CHOICES { all.len() as int } else { MAX_MEMBER_CHOICES as int },
            )
        }),
{
    assert(members.take(members.len() as int) =~= members);
    lemma_offered_grows(members, registered, partial, i, members.len() as int);
    let x = offered_members(members.take(i), registered, partial);
    if i == members.len() {
        assert(x.take(x.len() as int) =~= x);
    }
}

/// The choices between a league and a user.
pub fn autocomplete_league_or_user() -> (choices: Vec<String>)
    ensures
        choices@.map_values(|c: String| c@) == seq!["League"@, "User"@],
{
    let choices = vec![String::from_str("League"), String::from_str("User")];
    assert(choices@.map_values(|c: String| c@) =~= seq!["League"@, "User"@]);
    choices
}

/// The choices between the overall standings and those of the current game week.
pub fn autocomplete_overall_or_week() -> (choices: Vec<String>)
    ensures
        choices@.map_values(|c: String| c@) == seq!["Overall"@, "Current Gameweek"@],
{
    let choices = vec![String::from_str("Overall"), String::from_str("Current Gameweek")];
    assert(choices@.map_values(|c: String| c@) =~= seq!["Overall"@, "Current Gameweek"@]);
    choices
}

/// The choices between a club and a player.
pub fn autocomplete_player_or_club() -> (choices: Vec<String>)
    ensures
        choices@.map_values(|c: String| c@) == seq!["Club"@, "Player"@],
{
    let choices = vec![String::from_str("Club"), String::from_str("Player")];
    assert(choices@.map_values(|c: String| c@) =~= seq!["Club"@, "Player"@]);
    choices
}

} // verus!
