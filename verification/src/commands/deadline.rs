//! The `/deadline` command: every game week's deadline, starting from the game week asked for.
use crate::text::decimal;
use crate::types::GameWeek;
use chrono::Datelike;
use vstd::prelude::*;

verus! {

/// The day of the month of the UTC date `timestamp` seconds after the Unix epoch, as chrono
/// computes it; `None` where chrono cannot represent that instant.
pub uninterp spec fn utc_day(timestamp: i64) -> Option<u32>;

/// The UTC instant `timestamp` seconds after the Unix epoch written with the strftime
/// `pattern`, as chrono writes it.
pub uninterp spec fn utc_formatted(timestamp: i64, pattern: Seq<char>) -> Seq<char>;

/// The strftime specifiers the deadlines are written with.
pub open spec fn is_deadline_specifier(c: char) -> bool {
    c == 'B' || c == 'l' || c == 'M' || c == 'p' || c == 'Y'
}

/// Every `%` in `pattern` starts one of the deadline specifiers, so chrono can write it.
pub open spec fn is_deadline_pattern(pattern: Seq<char>) -> bool {
    forall|i: int|
        0 <= i < pattern.len() && #[trigger] pattern[i] == '%' ==> i + 1 < pattern.len()
            && is_deadline_specifier(pattern[i + 1])
}

/// chrono's `DateTime::<Utc>::from_timestamp(timestamp, 0)`, then `Datelike::day`. The result
/// is named: the day lies in `1..=31`; which instants chrono can represent is left unsaid.
#[verifier::external_body]
fn utc_day_of_month(timestamp: i64) -> (d: Option<u32>)
    ensures
        d == utc_day(timestamp),
        d matches Some(x) ==> 1 <= x <= 31,
{
    match chrono::DateTime::from_timestamp(timestamp, 0) {
        Some(instant) => Some(instant.day()),
        None => None,
    }
}

/// chrono's `DateTime::<Utc>::from_timestamp(timestamp, 0)`, then `format(pattern)` written out
/// as a `String`. It succeeds exactly where the instant can be represented, as the day does,
/// and the text is named.
#[verifier::external_body]
fn utc_format(timestamp: i64, pattern: &str) -> (s: Option<String>)
    requires
        is_deadline_pattern(pattern@),
    ensures
        s is Some <==> utc_day(timestamp) is Some,
        s matches Some(t) ==> t@ == utc_formatted(timestamp, pattern@),
{
    match chrono::DateTime::from_timestamp(timestamp, 0) {
        Some(instant) => Some(instant.format(pattern).to_string()),
        None => None,
    }
}

/// The English ordinal suffix of `n`: `st`, `nd` and `rd` after a last digit 1, 2 and 3,
/// except in 11, 12 and 13; `th` otherwise.
pub open spec fn ordinal_suffix(n: int) -> Seq<char> {
    if n % 10 == 1 && n % 100 != 11 {
        "st"@
    } else if n % 10 == 2 && n % 100 != 12 {
        "nd"@
    } else if n % 10 == 3 && n % 100 != 13 {
        "rd"@
    } else {
        "th"@
    }
}

/// The ordinal crate's `Ordinal(n)` written out: the number, then its suffix, as its source shows.
#[verifier::external_body]
fn ordinal_text(n: u32) -> (s: String)
    ensures
        s@ == decimal(n as int) + ordinal_suffix(n as int),
{
    ordinal::Ordinal(n).to_string()
}

/// The strftime pattern of a deadline falling on the day written `day`: month, day, time and year.
pub open spec fn deadline_pattern(day: Seq<char>) -> Seq<char> {
    "%B "@ + day + ", %l:%M %p, %Y"@
}

/// The line of a game week's deadline: `**name**: ` and the date, for the instant's day.
pub open spec fn deadline_line(name: Seq<char>, timestamp: i64, day: u32) -> Seq<char> {
    "**"@ + name + "**: "@ + utc_formatted(timestamp, deadline_pattern(decimal(day as int) + ordinal_suffix(day as int)))
}

proof fn lemma_deadline_pattern(day: Seq<char>)
    requires
        forall|i: int| 0 <= i < day.len() ==> day[i] != '%',
    ensures
        is_deadline_pattern(deadline_pattern(day)),
{
    reveal_strlit("%B ");
    reveal_strlit(", %l:%M %p, %Y");
    let p = deadline_pattern(day);
    let n = day.len() as int;
    assert forall|i: int| 0 <= i < p.len() && #[trigger] p[i] == '%' implies i + 1 < p.len()
        && is_deadline_specifier(p[i + 1]) by {
        if i >= 3 && i < 3 + n {
            assert(p[i] == day[i - 3]);
        }
    }
}

proof fn lemma_no_percent_digits(n: nat)
    ensures
        forall|i: int| 0 <= i < crate::text::decimal_digits(n).len() ==> #[trigger] crate::text::decimal_digits(n)[i]
            != '%',
    decreases n,
{
    let d = crate::text::decimal_digits(n);
    if n >= 10 {
        lemma_no_percent_digits(n / 10);
        let prev = crate::text::decimal_digits(n / 10);
        assert(d == prev.push(crate::text::digit_char(n % 10)));
        assert forall|i: int| 0 <= i < d.len() implies #[trigger] d[i] != '%' by {
            if i < prev.len() {
                assert(d[i] == prev[i]);
            }
        }
    }
}

/// The deadline line of one game week; `None` where chrono cannot represent the instant.
pub fn deadline_row(name: &str, timestamp: i64) -> (row: Option<String>)
    ensures
        row is Some <==> utc_day(timestamp) is Some,
        row matches Some(r) ==> r@ == deadline_line(name@, timestamp, utc_day(timestamp)->0),
{
    let day = match utc_day_of_month(timestamp) {
        Some(d) => d,
        None => {
            return None;
        },
    };
    let ordinal = ordinal_text(day);
    proof {
        reveal_strlit("st");
        reveal_strlit("nd");
        reveal_strlit("rd");
        reveal_strlit("th");
        lemma_no_percent_digits(day as nat);
        let o = ordinal@;
        let digits = decimal(day as int);
        assert(digits == crate::text::decimal_digits(day as nat));
        assert forall|i: int| 0 <= i < o.len() implies o[i] != '%' by {
            if i >= digits.len() {
                assert(o[i] == ordinal_suffix(day as int)[i - digits.len()]);
            } else {
                assert(o[i] == digits[i]);
            }
        }
        lemma_deadline_pattern(o);
    }
    let mut pattern = String::from_str("%B ");
    pattern.append(ordinal.as_str());
    pattern.append(", %l:%M %p, %Y");
    let date = match utc_format(timestamp, pattern.as_str()) {
        Some(t) => t,
        None => {
            return None;
        },
    };
    let mut row = String::from_str("**");
    row.append(name);
    row.append("**: ");
    row.append(date.as_str());
    Some(row)
}

/// The game week the deadlines start from: the one asked for, otherwise the one after the
/// current game week, or the current one when it is the last.
pub fn deadline_game_week(requested: Option<GameWeek>, current: GameWeek) -> (g: GameWeek)
    ensures
        g == match requested {
            Some(r) => r,
            None => match current.spec_next() {
                Some(n) => n,
                None => current,
            },
        },
{
    match requested {
        Some(r) => r,
        None => match current.next() {
            Some(n) => n,
            None => current,
        },
    }
}

/// The deadline lines of the game weeks in the order given.
pub open spec fn deadline_lines(deadlines: Seq<(String, i64)>) -> Seq<Seq<char>> {
    deadlines.map_values(
        |d: (String, i64)| deadline_line(d.0@, d.1, utc_day(d.1)->0),
    )
}

/// Every deadline's instant can be written.
pub open spec fn all_representable(deadlines: Seq<(String, i64)>) -> bool {
    forall|i: int| 0 <= i < deadlines.len() ==> (#[trigger] utc_day(deadlines[i].1)) is Some
}

/// The deadline lines, turned so that game week `start` comes first (the lines are those of
/// game weeks 1, 2, ... in order); `None` when some instant cannot be written.
pub fn get_deadline_rows(deadlines: &Vec<(String, i64)>, start: GameWeek) -> (rows: Option<Vec<String>>)
    requires
        start.spec_value() - 1 <= deadlines@.len(),
    ensures
        rows is Some <==> all_representable(deadlines@),
        rows matches Some(r) ==> {
            let lines = deadline_lines(deadlines@);
            let k = start.spec_value() - 1;
            r@.map_values(|s: String| s@) == lines.skip(k) + lines.take(k)
        },
{
    let ghost s = deadlines@;
    let ghost lines = deadline_lines(s);
    let mut all: Vec<String> = Vec::new();
    let mut i: usize = 0;
    while i < deadlines.len()
        invariant
            s == deadlines@,
            lines == deadline_lines(s),
            0 <= i <= s.len(),
            all@.len() == i,
            forall|j: int| 0 <= j < i ==> (#[trigger] utc_day(s[j].1)) is Some,
            forall|j: int| 0 <= j < i ==> (#[trigger] all@[j])@ == lines[j],
        decreases s.len() - i,
    {
        match deadline_row(deadlines[i].0.as_str(), deadlines[i].1) {
            Some(row) => {
                all.push(row);
            },
            None => {
                return None;
            },
        }
        i = i + 1;
    }
    let k = (*start as usize) - 1;
    let mut rows: Vec<String> = Vec::new();
    let mut j: usize = 0;
    while j < all.len()
        invariant
            0 <= k <= all@.len(),
            k == start.spec_value() - 1,
            all@.len() == lines.len(),
            forall|m: int| 0 <= m < all@.len() ==> (#[trigger] all@[m])@ == lines[m],
            rows@.len() == j,
            0 <= j <= all@.len(),
            forall|m: int|
                0 <= m < j ==> (#[trigger] rows@[m])@ == (lines.skip(k as int) + lines.take(k as int))[m],
        decreases all@.len() - j,
    {
        let from = if j < all.len() - k {
            j + k
        } else {
            j - (all.len() - k)
        };
        rows.push(all[from].clone());
        j = j + 1;
    }
    assert(rows@.map_values(|s: String| s@) =~= lines.skip(k as int) + lines.take(k as int));
    Some(rows)
}

} // verus!
