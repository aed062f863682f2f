//! The bonus points of a fixture, gathered per player from the fixture's statistics.
use crate::text::str_eq;
use crate::types::{FixtureId, PlayerId};
use vstd::prelude::*;

verus! {

/// One player's value of a statistic.
#[derive(Debug, Clone, Copy)]
pub struct StatValue {
    pub value: i16,
    pub element: PlayerId,
}

/// A statistic of a fixture: its identifier and the values of the away and home players.
#[derive(Debug)]
pub struct StatEntry {
    pub identifier: String,
    pub a: Vec<StatValue>,
    pub h: Vec<StatValue>,
}

/// A player's bonus points and bonus points system score in a fixture.
#[derive(Debug, Clone, Copy)]
pub struct GameWeekBonus {
    pub fixture_id: FixtureId,
    pub player_id: PlayerId,
    pub bonus: i16,
    pub bps: i16,
}

/// The statistic counts towards the bonus points.
pub open spec fn is_bonus_stat(identifier: Seq<char>) -> bool {
    identifier == "bonus"@
}

/// The statistic counts towards the bonus points system score.
pub open spec fn is_bps_stat(identifier: Seq<char>) -> bool {
    identifier == "bps"@
}

/// The values of one statistic, each marked with whether it is a bonus value (otherwise it
/// is a bonus points system value): the away values, then the home ones; none for other
/// statistics.
pub open spec fn entry_values(e: StatEntry) -> Seq<(bool, StatValue)> {
    if is_bonus_stat(e.identifier@) || is_bps_stat(e.identifier@) {
        let bonus = is_bonus_stat(e.identifier@);
        e.a@.map_values(|v: StatValue| (bonus, v)) + e.h@.map_values(|v: StatValue| (bonus, v))
    } else {
        Seq::empty()
    }
}

/// The bonus and bonus points system values of all the statistics, in order.
pub open spec fn bonus_values(stats: Seq<StatEntry>) -> Seq<(bool, StatValue)>
    decreases stats.len(),
{
    if stats.len() == 0 {
        Seq::empty()
    } else {
        bonus_values(stats.drop_last()) + entry_values(stats.last())
    }
}

/// The sum of player `p`'s values of the one kind (bonus when `bonus`, else bonus points system).
pub open spec fn player_total(values: Seq<(bool, StatValue)>, p: PlayerId, bonus: bool) -> int
    decreases values.len(),
{
    if values.len() == 0 {
        0
    } else {
        player_total(values.drop_last(), p, bonus) + if values.last().0 == bonus && values.last().1.element == p {
            values.last().1.value as int
        } else {
            0
        }
    }
}

/// No running total of any player leaves the `i16` range it is kept in.
pub open spec fn totals_fit(values: Seq<(bool, StatValue)>) -> bool {
    forall|k: int, p: PlayerId, bonus: bool|
        0 <= k <= values.len() ==> i16::MIN <= #[trigger] player_total(values.take(k), p, bonus) <= i16::MAX
}

/// `bonuses` holds one entry per player with a value among `values`, for fixture `fixture`,
/// with the player's totals.
pub open spec fn is_bonus_table(values: Seq<(bool, StatValue)>, fixture: FixtureId, bonuses: Seq<GameWeekBonus>) -> bool {
    &&& forall|a: int, b: int|
        0 <= a < b < bonuses.len() ==> (#[trigger] bonuses[a]).player_id != (#[trigger] bonuses[b]).player_id
    &&& forall|q: int|
        0 <= q < bonuses.len() ==> {
            &&& (#[trigger] bonuses[q]).fixture_id == fixture
            &&& bonuses[q].bonus == player_total(values, bonuses[q].player_id, true)
            &&& bonuses[q].bps == player_total(values, bonuses[q].player_id, false)
            &&& has_value(values, bonuses[q].player_id)
        }
    &&& forall|m: int| 0 <= m < values.len() ==> listed(bonuses, (#[trigger] values[m]).1.element)
}

/// Some value is the player's.
pub open spec fn has_value(values: Seq<(bool, StatValue)>, p: PlayerId) -> bool {
    exists|m: int| 0 <= m < values.len() && (#[trigger] values[m]).1.element == p
}

/// The player has an entry.
pub open spec fn listed(bonuses: Seq<GameWeekBonus>, p: PlayerId) -> bool {
    exists|q: int| 0 <= q < bonuses.len() && (#[trigger] bonuses[q]).player_id == p
}

/// The bonus and bonus points system values of the statistics, in order.
pub fn collect_bonus_values(stats: &Vec<StatEntry>) -> (values: Vec<(bool, StatValue)>)
    ensures
        values@ == bonus_values(stats@),
{
    proof {
        reveal_strlit("bonus");
        reveal_strlit("bps");
    }
    let ghost s = stats@;
    let mut values: Vec<(bool, StatValue)> = Vec::new();
    let mut i: usize = 0;
    while i < stats.len()
        invariant
            s == stats@,
            0 <= i <= s.len(),
            values@ == bonus_values(s.take(i as int)),
        decreases s.len() - i,
    {
        assert(s.take(i + 1).drop_last() =~= s.take(i as int));
        assert(s.take(i + 1).last() == s[i as int]);
        let e = &stats[i];
        let bonus = str_eq(e.identifier.as_str(), "bonus");
        let bps = str_eq(e.identifier.as_str(), "bps");
        if bonus || bps {
            let ghost start = values@;
            let mut j: usize = 0;
            while j < e.a.len()
                invariant
                    0 <= j <= e.a@.len(),
                    values@ == start + e.a@.take(j as int).map_values(|v: StatValue| (bonus, v)),
                decreases e.a@.len() - j,
            {
                values.push((bonus, e.a[j]));
                assert(e.a@.take(j + 1).map_values(|v: StatValue| (bonus, v)) =~= e.a@.take(j as int).map_values(
                    |v: StatValue| (bonus, v),
                ).push((bonus, e.a@[j as int])));
                j = j + 1;
            }
            assert(e.a@.take(e.a@.len() as int) =~= e.a@);
            let ghost mid = values@;
            let mut j: usize = 0;
            while j < e.h.len()
                invariant
                    0 <= j <= e.h@.len(),
                    values@ == mid + e.h@.take(j as int).map_values(|v: StatValue| (bonus, v)),
                decreases e.h@.len() - j,
            {
                values.push((bonus, e.h[j]));
                assert(e.h@.take(j + 1).map_values(|v: StatValue| (bonus, v)) =~= e.h@.take(j as int).map_values(
                    |v: StatValue| (bonus, v),
                ).push((bonus, e.h@[j as int])));
                j = j + 1;
            }
            assert(e.h@.take(e.h@.len() as int) =~= e.h@);
            assert(values@ =~= start + entry_values(s[i as int]));
        } else {
            assert(entry_values(s[i as int]) =~= Seq::<(bool, StatValue)>::empty());
            assert(values@ =~= values@ + entry_values(s[i as int]));
        }
        i = i + 1;
    }
    assert(s.take(s.len() as int) =~= s);
    values
}

/// The bonus table of the values: one entry per player, in the order the players first
/// appear, with the player's total bonus and bonus points system score.
pub fn total_bonuses(values: &Vec<(bool, StatValue)>, fixture_id: FixtureId) -> (bonuses: Vec<GameWeekBonus>)
    requires
        totals_fit(values@),
    ensures
        is_bonus_table(values@, fixture_id, bonuses@),
{
    let ghost s = values@;
    let mut bonuses: Vec<GameWeekBonus> = Vec::new();
    let mut i: usize = 0;
    while i < values.len()
        invariant
            s == values@,
            totals_fit(s),
            0 <= i <= s.len(),
            is_bonus_table(s.take(i as int), fixture_id, bonuses@),
        decreases s.len() - i,
    {
        let ghost pre = s.take(i as int);
        let ghost post = s.take(i + 1);
        assert(post.drop_last() =~= pre);
        assert(post.last() == s[i as int]);
        let (is_bonus, v) = values[i];
        let mut q: usize = 0;
        while q < bonuses.len() && bonuses[q].player_id.0 != v.element.0
            invariant
                0 <= q <= bonuses@.len(),
                forall|r: int| 0 <= r < q ==> (#[trigger] bonuses@[r]).player_id != v.element,
            decreases bonuses@.len() - q,
        {
            q = q + 1;
        }
        let ghost old = bonuses@;
        proof {
            assert(i16::MIN <= player_total(post, v.element, true) <= i16::MAX);
            assert(i16::MIN <= player_total(post, v.element, false) <= i16::MAX);
            assert forall|p: PlayerId, b: bool| p != v.element || b != is_bonus implies #[trigger] player_total(post, p, b)
                == player_total(pre, p, b) by {}
        }
        if q == bonuses.len() {
            proof {
                assert(!listed(old, v.element));
                assert(player_total(pre, v.element, true) == 0 && player_total(pre, v.element, false) == 0) by {
                    lemma_total_absent(pre, v.element, true);
                    lemma_total_absent(pre, v.element, false);
                }
            }
            let entry = GameWeekBonus {
                fixture_id,
                player_id: v.element,
                bonus: if is_bonus { v.value } else { 0 },
                bps: if is_bonus { 0 } else { v.value },
            };
            bonuses.push(entry);
        } else {
            let mut entry = bonuses[q];
            if is_bonus {
                entry.bonus = entry.bonus + v.value;
            } else {
                entry.bps = entry.bps + v.value;
            }
            bonuses.set(q, entry);
        }
        proof {
            let new = bonuses@;
            assert forall|a: int, b: int| 0 <= a < b < new.len() implies (#[trigger] new[a]).player_id != (
            #[trigger] new[b]).player_id by {
                if b < old.len() {
                    assert(new[a].player_id == old[a].player_id);
                    assert(new[b].player_id == old[b].player_id);
                } else {
                    assert(new[a].player_id == old[a].player_id);
                }
            }
            assert forall|r: int| 0 <= r < new.len() implies {
                &&& (#[trigger] new[r]).fixture_id == fixture_id
                &&& new[r].bonus == player_total(post, new[r].player_id, true)
                &&& new[r].bps == player_total(post, new[r].player_id, false)
                &&& has_value(post, new[r].player_id)
            } by {
                if r < old.len() {
                    assert(new[r].player_id == old[r].player_id);
                    let m = choose|m: int| 0 <= m < pre.len() && (#[trigger] pre[m]).1.element == old[r].player_id;
                    assert(post[m] == pre[m]);
                } else {
                    assert(post[i as int].1.element == new[r].player_id);
                }
            }
            assert forall|m: int| 0 <= m < post.len() implies listed(new, (#[trigger] post[m]).1.element) by {
                if m < i {
                    assert(post[m] == pre[m]);
                    let r = choose|r: int| 0 <= r < old.len() && (#[trigger] old[r]).player_id == pre[m].1.element;
                    assert(new[r].player_id == old[r].player_id);
                } else {
                    if q < old.len() {
                        assert(new[q as int].player_id == v.element);
                    } else {
                        assert(new[old.len() as int].player_id == v.element);
                    }
                }
            }
        }
        i = i + 1;
    }
    assert(s.take(s.len() as int) =~= s);
    bonuses
}

/// Whether `total_bonuses` can keep every running total of `values` in an `i16`.
pub fn totals_in_range(values: &Vec<(bool, StatValue)>) -> (b: bool)
    ensures
        b == totals_fit(values@),
{
    let ghost s = values@;
    let mut running: Vec<(PlayerId, bool, i16)> = Vec::new();
    let mut i: usize = 0;
    while i < values.len()
        invariant
            s == values@,
            0 <= i <= s.len(),
            forall|k: int, p: PlayerId, b: bool|
                0 <= k <= i ==> i16::MIN <= #[trigger] player_total(s.take(k), p, b) <= i16::MAX,
            forall|r: int|
                0 <= r < running@.len() ==> (#[trigger] running@[r]).2 == player_total(
                    s.take(i as int),
                    running@[r].0,
                    running@[r].1,
                ),
            forall|p: PlayerId, b: bool|
                (forall|r: int| 0 <= r < running@.len() ==> !(#[trigger] running@[r].0 == p && running@[r].1 == b))
                    ==> #[trigger] player_total(s.take(i as int), p, b) == 0,
            forall|a: int, c: int|
                0 <= a < c < running@.len() ==> !((#[trigger] running@[a]).0 == (#[trigger] running@[c]).0
                    && running@[a].1 == running@[c].1),
        decreases s.len() - i,
    {
        let ghost pre = s.take(i as int);
        let ghost post = s.take(i + 1);
        assert(post.drop_last() =~= pre);
        assert(post.last() == s[i as int]);
        let (is_bonus, v) = values[i];
        let mut q: usize = 0;
        while q < running.len() && !(running[q].0.0 == v.element.0 && running[q].1 == is_bonus)
            invariant
                0 <= q <= running@.len(),
                forall|r: int| 0 <= r < q ==> !(#[trigger] running@[r].0 == v.element && running@[r].1 == is_bonus),
            decreases running@.len() - q,
        {
            q = q + 1;
        }
        let current: i32 = if q < running.len() {
            running[q].2 as i32
        } else {
            0
        };
        assert(current == player_total(pre, v.element, is_bonus));
        let next = current + v.value as i32;
        assert(next == player_total(post, v.element, is_bonus));
        if next < -32768 || next > 32767 {
            assert(!(i16::MIN <= player_total(s.take(i + 1), v.element, is_bonus) <= i16::MAX));
            return false;
        }
        let ghost old = running@;
        if q < running.len() {
            running.set(q, (v.element, is_bonus, next as i16));
        } else {
            running.push((v.element, is_bonus, next as i16));
        }
        proof {
            let new = running@;
            assert forall|p: PlayerId, b: bool| !(p == v.element && b == is_bonus) implies #[trigger] player_total(
                post,
                p,
                b,
            ) == player_total(pre, p, b) by {}
            assert forall|k: int, p: PlayerId, b: bool| 0 <= k <= i + 1 implies i16::MIN <= #[trigger] player_total(
                s.take(k),
                p,
                b,
            ) <= i16::MAX by {
                if k == i + 1 {
                    if !(p == v.element && b == is_bonus) {
                        assert(player_total(pre, p, b) == player_total(s.take(i as int), p, b));
                    }
                }
            }
            assert forall|a: int, c: int| 0 <= a < c < new.len() implies !((#[trigger] new[a]).0 == (
            #[trigger] new[c]).0 && new[a].1 == new[c].1) by {
                if a != q {
                    assert(new[a] == old[a]);
                }
                if c != q {
                    assert(new[c] == old[c]);
                }
            }
            assert forall|r: int| 0 <= r < new.len() implies (#[trigger] new[r]).2 == player_total(
                post,
                new[r].0,
                new[r].1,
            ) by {
                if r != q {
                    assert(new[r] == old[r]);
                    if q < old.len() {
                        assert(old[q as int].0 == v.element && old[q as int].1 == is_bonus);
                    }
                }
            }
            assert forall|p: PlayerId, b: bool|
                (forall|r: int| 0 <= r < new.len() ==> !(#[trigger] new[r].0 == p && new[r].1 == b))
                    implies #[trigger] player_total(post, p, b) == 0 by {
                if q < old.len() {
                    assert(!(new[q as int].0 == p && new[q as int].1 == b));
                } else {
                    assert(!(new[old.len() as int].0 == p && new[old.len() as int].1 == b));
                }
                assert forall|r: int| 0 <= r < old.len() implies !(#[trigger] old[r].0 == p && old[r].1 == b) by {
                    if r != q {
                        assert(new[r] == old[r]);
                    }
                }
            }
        }
        i = i + 1;
    }
    assert(s.take(s.len() as int) =~= s);
    assert forall|k: int, p: PlayerId, b: bool| 0 <= k <= s.len() implies i16::MIN <= #[trigger] player_total(
        s.take(k),
        p,
        b,
    ) <= i16::MAX by {}
    true
}

proof fn lemma_total_absent(values: Seq<(bool, StatValue)>, p: PlayerId, bonus: bool)
    requires
        forall|m: int| 0 <= m < values.len() ==> (#[trigger] values[m]).1.element != p,
    ensures
        player_total(values, p, bonus) == 0,
    decreases values.len(),
{
    if values.len() > 0 {
        assert forall|m: int| 0 <= m < values.len() - 1 implies (#[trigger] values.drop_last()[m]).1.element != p by {
            assert(values.drop_last()[m] == values[m]);
        }
        lemma_total_absent(values.drop_last(), p, bonus);
    }
}

/// The bonus table of a fixture from its statistics: the players' bonus points and bonus
/// points system scores.
pub fn fixture_bonuses(fixture_id: FixtureId, stats: &Vec<StatEntry>) -> (bonuses: Vec<GameWeekBonus>)
    requires
        totals_fit(bonus_values(stats@)),
    ensures
        is_bonus_table(bonus_values(stats@), fixture_id, bonuses@),
{
    let values = collect_bonus_values(stats);
    total_bonuses(&values, fixture_id)
}

} // verus!
