//! The `/register` command: which of a new manager's leagues to follow, and how their
//! standings are paged through.
use crate::responses::ClassicLeague;
use crate::types::LeagueId;
use vstd::prelude::*;

verus! {

/// Leagues larger than this are not followed.
pub const MAX_MINI_LEAGUE_ENTRIES: i32 = 25;

/// A league is followed when it has an admin (it is private) and ranks at most
/// `MAX_MINI_LEAGUE_ENTRIES` teams.
pub open spec fn is_followed(l: ClassicLeague) -> bool {
    l.admin_entry is Some && l.rank_count <= MAX_MINI_LEAGUE_ENTRIES
}

/// The id under which a league is requested.
pub open spec fn league_of(l: ClassicLeague) -> LeagueId {
    LeagueId(l.id as u32)
}

/// Some of the first `n` leagues of `s` is followed and has id `id`.
pub open spec fn followed_among(s: Seq<ClassicLeague>, n: int, id: LeagueId) -> bool {
    exists|j: int| 0 <= j < n && is_followed(s[j]) && league_of(s[j]) == id
}

/// The leagues to follow: the ids of the followed leagues, each once, in the order they first
/// appear.
pub fn followed_league_ids(leagues: &Vec<ClassicLeague>) -> (ids: Vec<LeagueId>)
    ensures
        forall|a: int, b: int| 0 <= a < b < ids@.len() ==> #[trigger] ids@[a] != #[trigger] ids@[b],
        forall|k: int| 0 <= k < ids@.len() ==> followed_among(leagues@, leagues@.len() as int, #[trigger] ids@[k]),
        forall|j: int| 0 <= j < leagues@.len() && is_followed(#[trigger] leagues@[j]) ==> ids@.contains(
            league_of(leagues@[j]),
        ),
        forall|a: int, b: int, j: int|
            #![trigger ids@[a], ids@[b], leagues@[j]]
            0 <= a < b < ids@.len() && 0 <= j < leagues@.len() && is_followed(leagues@[j]) && league_of(leagues@[j])
                == ids@[b] ==> followed_among(leagues@, j, ids@[a]),
{
    let ghost s = leagues@;
    let mut ids: Vec<LeagueId> = Vec::new();
    let mut i: usize = 0;
    while i < leagues.len()
        invariant
            s == leagues@,
            0 <= i <= s.len(),
            forall|a: int, b: int| 0 <= a < b < ids@.len() ==> #[trigger] ids@[a] != #[trigger] ids@[b],
            forall|k: int| 0 <= k < ids@.len() ==> followed_among(s, i as int, #[trigger] ids@[k]),
            forall|j: int| 0 <= j < i && is_followed(#[trigger] s[j]) ==> ids@.contains(league_of(s[j])),
            forall|a: int, b: int, j: int|
                #![trigger ids@[a], ids@[b], s[j]]
                0 <= a < b < ids@.len() && 0 <= j < i && is_followed(s[j]) && league_of(s[j]) == ids@[b]
                    ==> followed_among(s, j, ids@[a]),
        decreases s.len() - i,
    {
        let l = leagues[i];
        if l.admin_entry.is_some() && l.rank_count <= MAX_MINI_LEAGUE_ENTRIES {
            let id = LeagueId::new(#[verifier::truncate] (l.id as u32));
            let mut seen = false;
            let mut k: usize = 0;
            while k < ids.len()
                invariant
                    0 <= k <= ids@.len(),
                    seen == exists|m: int| 0 <= m < k && ids@[m] == id,
                decreases ids@.len() - k,
            {
                if ids[k].0 == id.0 {
                    seen = true;
                }
                k = k + 1;
            }
            if !seen {
                let ghost before = ids@;
                ids.push(id);
                proof {
                    assert forall|k2: int| 0 <= k2 < ids@.len() implies followed_among(s, i + 1, #[trigger] ids@[k2]) by {
                        if k2 < before.len() {
                            assert(ids@[k2] == before[k2]);
                            let j = choose|j: int| 0 <= j < i && is_followed(s[j]) && league_of(s[j]) == before[k2];
                        } else {
                            assert(league_of(s[i as int]) == ids@[k2]);
                        }
                    }
                    assert forall|j: int| 0 <= j < i + 1 && is_followed(#[trigger] s[j]) implies ids@.contains(
                        league_of(s[j]),
                    ) by {
                        if j < i {
                            let m = choose|m: int| 0 <= m < before.len() && before[m] == league_of(s[j]);
                            assert(ids@[m] == before[m]);
                        } else {
                            assert(ids@[before.len() as int] == league_of(s[j]));
                        }
                    }
                    assert forall|a: int, b: int, j: int|
                        #![trigger ids@[a], ids@[b], s[j]]
                        0 <= a < b < ids@.len() && 0 <= j < i + 1 && is_followed(s[j]) && league_of(s[j])
                            == ids@[b] implies followed_among(s, j, ids@[a]) by {
                        assert(ids@[a] == before[a]);
                        if b < before.len() {
                            assert(ids@[b] == before[b]);
                            if j == i {
                                assert(before[b] == id);
                                assert(false);
                            }
                        } else {
                            assert(ids@[b] == id);
                            if j < i {
                                let m = choose|m: int| 0 <= m < before.len() && before[m] == league_of(s[j]);
                                assert(before[m] == id);
                                assert(false);
                            }
                            assert(followed_among(s, i as int, before[a]));
                        }
                    }
                }
            } else {
                proof {
                    assert forall|k2: int| 0 <= k2 < ids@.len() implies followed_among(s, i + 1, #[trigger] ids@[k2]) by {
                        let j = choose|j: int| 0 <= j < i && is_followed(s[j]) && league_of(s[j]) == ids@[k2];
                    }
                    let m = choose|m: int| 0 <= m < ids@.len() && ids@[m] == id;
                    assert(ids@.contains(league_of(s[i as int])));
                    assert forall|a: int, b: int, j: int|
                        #![trigger ids@[a], ids@[b], s[j]]
                        0 <= a < b < ids@.len() && 0 <= j < i + 1 && is_followed(s[j]) && league_of(s[j])
                            == ids@[b] implies followed_among(s, j, ids@[a]) by {
                        if j == i {
                            assert(followed_among(s, i as int, ids@[a]));
                        }
                    }
                }
            }
        } else {
            proof {
                assert forall|k2: int| 0 <= k2 < ids@.len() implies followed_among(s, i + 1, #[trigger] ids@[k2]) by {
                    let j = choose|j: int| 0 <= j < i && is_followed(s[j]) && league_of(s[j]) == ids@[k2];
                }
            }
        }
        i = i + 1;
    }
    assert forall|k: int| 0 <= k < ids@.len() implies followed_among(leagues@, leagues@.len() as int, #[trigger] ids@[k]) by {
        assert(followed_among(s, i as int, ids@[k]));
    }
    ids
}

/// The page of standings to fetch after `page`: the next one while there is one.
pub fn next_standings_page(page: u8, has_next: bool) -> (next: Option<u8>)
    requires
        has_next ==> page < u8::MAX,
    ensures
        next == (if has_next { Some((page + 1) as u8) } else { None::<u8> }),
{
    if has_next {
        Some(page + 1)
    } else {
        None
    }
}

} // verus!
