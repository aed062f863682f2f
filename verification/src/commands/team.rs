//! The `/team` command: a manager's picks for a game week, laid out on the pitch.
use crate::images::player_card::{game_view, new_card, GameView, PlayerCard};
use crate::images::team::TeamDraft;
use crate::images::{GameStatus, PlayerGameInfo, PlayerInfo, TeamDataBuilder};
use crate::sorting::{is_stable_sort_desc, sort_by_key_desc};
use crate::types::game_week::is_game_week_number;
use crate::types::{chip_name, is_chip_name, position_named, Chip, GameWeek, PlayerPosition};
use vstd::prelude::*;

verus! {

/// One game of one pick, as the database gives it: the player, the pick, and the fixture.
#[derive(Debug)]
pub struct PickRecord {
    pub name: String,
    pub code: i32,
    pub points: i32,
    pub captain: bool,
    pub vice_captain: bool,
    pub multiplier: i16,
    pub position: i16,
    pub player_position: String,
    pub started: bool,
    pub minutes: i16,
    pub player_id: i16,
    pub short_name: String,
    pub is_home: bool,
}

fn copy_pick(r: &PickRecord) -> (c: PickRecord)
    ensures
        c == *r,
{
    PickRecord {
        name: r.name.clone(),
        code: r.code,
        points: r.points,
        captain: r.captain,
        vice_captain: r.vice_captain,
        multiplier: r.multiplier,
        position: r.position,
        player_position: r.player_position.clone(),
        started: r.started,
        minutes: r.minutes,
        player_id: r.player_id,
        short_name: r.short_name.clone(),
        is_home: r.is_home,
    }
}

/// The multiplier a game's points are shown with: bench players (positions 12 to 15) count
/// once, everyone else with the pick's multiplier.
pub open spec fn shown_multiplier(r: PickRecord) -> int {
    if 12 <= r.position <= 15 {
        1
    } else {
        r.multiplier as int
    }
}

/// The game counts as played: it has started and the player played in it, or the pick is the
/// manager (position 16).
pub open spec fn counts_as_played(r: PickRecord) -> bool {
    r.started && !(r.minutes == 0 && r.position != 16)
}

/// The shown points of a played game fit in an `i16`.
pub open spec fn points_fit(r: PickRecord) -> bool {
    counts_as_played(r) ==> i16::MIN <= (r.points as i16) * shown_multiplier(r) <= i16::MAX
}

/// What the card shows for one game: the fixture (`club (H)` or `club (A)`) before it starts,
/// then the points, or that the player did not play.
pub open spec fn pick_game(r: PickRecord) -> GameView {
    if !r.started {
        GameView::Fixture(r.short_name@ + " ("@ + (if r.is_home { "H"@ } else { "A"@ }) + ")"@)
    } else if !counts_as_played(r) {
        GameView::NotPlayed
    } else {
        GameView::Played(((r.points as i16) * shown_multiplier(r)) as i16)
    }
}

/// The games of player `id`, in the order given.
pub open spec fn player_games(s: Seq<PickRecord>, id: i16) -> Seq<GameView>
    decreases s.len(),
{
    if s.len() == 0 {
        Seq::empty()
    } else if s.last().player_id == id {
        player_games(s.drop_last(), id).push(pick_game(s.last()))
    } else {
        player_games(s.drop_last(), id)
    }
}

/// Every game was played.
pub open spec fn all_played(g: Seq<GameView>) -> bool {
    forall|i: int| 0 <= i < g.len() ==> (#[trigger] g[i]) is Played
}

/// Several games that were all played are shown as the first of them alone.
pub open spec fn collapsed(g: Seq<GameView>) -> Seq<GameView> {
    if g.len() > 1 && all_played(g) {
        seq![g[0]]
    } else {
        g
    }
}

/// The games, as plain values.
pub open spec fn game_views(g: Seq<PlayerGameInfo>) -> Seq<GameView> {
    g.map_values(|x: PlayerGameInfo| game_view(x))
}

/// What the card shows for one game of a pick.
/// The manager (position 16) plays no minutes but scores: once the game has started, its
/// points are shown with the pick's multiplier, whatever the minutes.
pub proof fn lemma_manager_scores_without_minutes(r: PickRecord)
    requires
        r.started,
        r.position == 16,
    ensures
        pick_game(r) == GameView::Played(((r.points as i16) * r.multiplier) as i16),
{
}

/// Any other pick with no minutes in a started game shows as not played.
pub proof fn lemma_no_minutes_not_played(r: PickRecord)
    requires
        r.started,
        r.minutes == 0,
        r.position != 16,
    ensures
        pick_game(r) == GameView::NotPlayed,
{
}

/// A pick that played in a started game shows its points: once on the bench (positions 12
/// to 15), with the pick's multiplier anywhere else.
pub proof fn lemma_minutes_show_points(r: PickRecord)
    requires
        r.started,
        r.minutes != 0,
    ensures
        pick_game(r) == GameView::Played(
            ((r.points as i16) * (if 12 <= r.position <= 15 { 1 } else { r.multiplier as int })) as i16,
        ),
{
}

/// A game not yet started shows the opponent's short name with `(H)` for a home game and
/// `(A)` for an away game.
pub proof fn lemma_fixture_home_or_away(r: PickRecord)
    requires
        !r.started,
    ensures
        r.is_home ==> pick_game(r) == GameView::Fixture(r.short_name@ + " (H)"@),
        !r.is_home ==> pick_game(r) == GameView::Fixture(r.short_name@ + " (A)"@),
        pick_game(r) matches GameView::Fixture(t) && t.len() == r.short_name@.len() + 4
            && t[t.len() - 2] == (if r.is_home { 'H' } else { 'A' }),
{
    reveal_strlit(" (");
    reveal_strlit("H");
    reveal_strlit("A");
    reveal_strlit(")");
    reveal_strlit(" (H)");
    reveal_strlit(" (A)");
    if r.is_home {
        assert(r.short_name@ + " ("@ + "H"@ + ")"@ =~= r.short_name@ + " (H)"@);
    } else {
        assert(r.short_name@ + " ("@ + "A"@ + ")"@ =~= r.short_name@ + " (A)"@);
    }
}

pub fn game_of_pick(r: &PickRecord) -> (g: PlayerGameInfo)
    requires
        points_fit(*r),
    ensures
        game_view(g) == pick_game(*r),
{
    if r.started {
        if r.minutes == 0 && r.position != 16 {
            PlayerGameInfo::Status(GameStatus::NotPlayed)
        } else {
            let multiplier: i16 = if r.position <= 15 && r.position >= 12 {
                1
            } else {
                r.multiplier
            };
            let points = #[verifier::truncate] (r.points as i16);
            PlayerGameInfo::Status(GameStatus::Played(points * multiplier))
        }
    } else {
        let mut text = r.short_name.clone();
        text.append(" (");
        if r.is_home {
            text.append("H");
        } else {
            text.append("A");
        }
        text.append(")");
        PlayerGameInfo::Fixture(text)
    }
}

/// Whether the points of every played game in `records` can be shown in an `i16`.
pub fn picks_in_range(records: &Vec<PickRecord>) -> (b: bool)
    ensures
        b == forall|j: int| 0 <= j < records@.len() ==> points_fit(#[trigger] records@[j]),
{
    let mut i: usize = 0;
    while i < records.len()
        invariant
            0 <= i <= records@.len(),
            forall|j: int| 0 <= j < i ==> points_fit(#[trigger] records@[j]),
        decreases records@.len() - i,
    {
        let r = &records[i];
        if r.started && !(r.minutes == 0 && r.position != 16) {
            let multiplier: i32 = if r.position <= 15 && r.position >= 12 {
                1
            } else {
                r.multiplier as i32
            };
            let points = #[verifier::truncate] (r.points as i16);
            assert(-0x4000_0000 <= (points as int) * (multiplier as int) <= 0x4000_0000) by (nonlinear_arith)
                requires
                    -0x8000 <= points <= 0x7fff,
                    -0x8000 <= multiplier <= 0x7fff,
            ;
            let shown = (points as i32) * multiplier;
            if shown < -32768 || shown > 32767 {
                assert(!points_fit(records@[i as int]));
                return false;
            }
        }
        i = i + 1;
    }
    true
}

/// The games the card of player `id` shows.
pub fn games_of_player(records: &Vec<PickRecord>, id: i16) -> (games: Vec<PlayerGameInfo>)
    requires
        forall|j: int| 0 <= j < records@.len() ==> points_fit(#[trigger] records@[j]),
    ensures
        game_views(games@) == collapsed(player_games(records@, id)),
{
    let ghost s = records@;
    let mut games: Vec<PlayerGameInfo> = Vec::new();
    let mut i: usize = 0;
    while i < records.len()
        invariant
            s == records@,
            0 <= i <= s.len(),
            forall|j: int| 0 <= j < s.len() ==> points_fit(#[trigger] s[j]),
            game_views(games@) == player_games(s.take(i as int), id),
        decreases s.len() - i,
    {
        assert(s.take(i + 1).drop_last() =~= s.take(i as int));
        assert(s.take(i + 1).last() == s[i as int]);
        if records[i].player_id == id {
            let g = game_of_pick(&records[i]);
            let ghost before = games@;
            games.push(g);
            assert(game_views(games@) =~= game_views(before).push(game_view(g)));
        }
        i = i + 1;
    }
    assert(s.take(s.len() as int) =~= s);
    let ghost all = game_views(games@);
    if games.len() > 1 {
        let mut every = true;
        let mut k: usize = 0;
        while k < games.len()
            invariant
                0 <= k <= games@.len(),
                all == game_views(games@),
                every == forall|j: int| 0 <= j < k ==> (#[trigger] all[j]) is Played,
            decreases games@.len() - k,
        {
            assert(all[k as int] == game_view(games@[k as int]));
            match &games[k] {
                PlayerGameInfo::Status(GameStatus::Played(_)) => {},
                _ => {
                    every = false;
                },
            }
            k = k + 1;
        }
        if every {
            let first = match &games[0] {
                PlayerGameInfo::Status(GameStatus::Played(p)) => *p,
                _ => {
                    return games;
                },
            };
            assert(all[0] == game_view(games@[0]));
            assert(all_played(all));
            let mut one: Vec<PlayerGameInfo> = Vec::new();
            one.push(PlayerGameInfo::Status(GameStatus::Played(first)));
            assert(game_views(one@) =~= seq![all[0]]);
            return one;
        }
    }
    games
}

/// `card` is the card of pick `r`, its games taken from all the records `all`.
pub open spec fn shows_pick(card: PlayerCard, r: PickRecord, all: Seq<PickRecord>) -> bool {
    &&& card == new_card(r.name@, r.code as u32, card.games, r.captain, r.vice_captain)
    &&& game_views(card.games) == collapsed(player_games(all, r.player_id))
}

/// The card of pick `r`.
pub fn pick_card(r: &PickRecord, records: &Vec<PickRecord>) -> (c: PlayerInfo)
    requires
        forall|j: int| 0 <= j < records@.len() ==> points_fit(#[trigger] records@[j]),
    ensures
        shows_pick(c@, *r, records@),
{
    let games = games_of_player(records, r.player_id);
    PlayerInfo::new(r.name.clone(), r.code as u32, games, r.captain, r.vice_captain)
}

/// Where a pick goes in the team.
pub enum PickRole {
    Keeper,
    Defender,
    Midfielder,
    Forward,
    Manager,
    Bench,
}

/// Where pick `r` goes: the starting eleven (positions 1 to 11) by the player's position,
/// the bench (12 to 15), or the manager's place (16); `None` when it goes nowhere.
pub open spec fn pick_role(r: PickRecord) -> Option<PickRole> {
    if 1 <= r.position <= 11 {
        match position_named(r.player_position@) {
            Some(PlayerPosition::Goalkeeper) => Some(PickRole::Keeper),
            Some(PlayerPosition::Defender) => Some(PickRole::Defender),
            Some(PlayerPosition::Midfielder) => Some(PickRole::Midfielder),
            Some(PlayerPosition::Attacker) => Some(PickRole::Forward),
            Some(PlayerPosition::Manager) => Some(PickRole::Manager),
            None => None,
        }
    } else if 12 <= r.position <= 15 {
        Some(PickRole::Bench)
    } else if r.position == 16 {
        Some(PickRole::Manager)
    } else {
        None
    }
}

/// The picks that go to `role`, in the order given.
pub open spec fn picks_with(reps: Seq<PickRecord>, role: PickRole) -> Seq<PickRecord>
    decreases reps.len(),
{
    if reps.len() == 0 {
        Seq::empty()
    } else if pick_role(reps.last()) == Some(role) {
        picks_with(reps.drop_last(), role).push(reps.last())
    } else {
        picks_with(reps.drop_last(), role)
    }
}

/// The last pick that goes to `role`, if any.
pub open spec fn last_with(reps: Seq<PickRecord>, role: PickRole) -> Option<PickRecord>
    decreases reps.len(),
{
    if reps.len() == 0 {
        None
    } else if pick_role(reps.last()) == Some(role) {
        Some(reps.last())
    } else {
        last_with(reps.drop_last(), role)
    }
}

/// Every pick goes somewhere.
pub open spec fn roles_known(reps: Seq<PickRecord>) -> bool {
    forall|i: int| 0 <= i < reps.len() ==> (#[trigger] pick_role(reps[i])) is Some
}

/// The records keyed so that sorting by key, largest first, orders them by player, lowest id first.
pub open spec fn id_keyed(records: Seq<PickRecord>) -> Seq<(i64, PickRecord)> {
    records.map_values(|r: PickRecord| ((-(r.player_id as int)) as i64, r))
}

/// The records with every run of records of the same player cut down to its first record.
pub open spec fn dedup_ids(s: Seq<PickRecord>) -> Seq<PickRecord>
    decreases s.len(),
{
    if s.len() == 0 {
        Seq::empty()
    } else if s.len() > 1 && s[s.len() - 2].player_id == s.last().player_id {
        dedup_ids(s.drop_last())
    } else {
        dedup_ids(s.drop_last()).push(s.last())
    }
}

/// The bench picks keyed so that sorting by key, largest first, orders them by position.
pub open spec fn bench_keyed(reps: Seq<PickRecord>) -> Seq<(i64, PickRecord)> {
    picks_with(reps, PickRole::Bench).map_values(|r: PickRecord| ((-(r.position as int)) as i64, r))
}

/// Each card shows the corresponding pick.
pub open spec fn cards_show(cs: Seq<PlayerCard>, rs: Seq<PickRecord>, all: Seq<PickRecord>) -> bool {
    &&& cs.len() == rs.len()
    &&& forall|i: int| 0 <= i < cs.len() ==> shows_pick(#[trigger] cs[i], rs[i], all)
}

/// `new` is `old` followed by the cards of `rs`.
pub open spec fn extends_with(
    new: Seq<PlayerCard>,
    old: Seq<PlayerCard>,
    rs: Seq<PickRecord>,
    all: Seq<PickRecord>,
) -> bool {
    &&& new.len() >= old.len()
    &&& new.take(old.len() as int) == old
    &&& cards_show(new.skip(old.len() as int), rs, all)
}

/// `new` holds the card of `last` when there is one, otherwise it is `old`.
pub open spec fn slot_after(
    new: Option<PlayerCard>,
    old: Option<PlayerCard>,
    last: Option<PickRecord>,
    all: Seq<PickRecord>,
) -> bool {
    match last {
        Some(r) => new matches Some(c) && shows_pick(c, r, all),
        None => new == old,
    }
}

/// `new` is `d` with the picks `reps` placed (the bench in the order `bench`), everything
/// else unchanged.
pub open spec fn picks_placed(
    d: TeamDraft,
    reps: Seq<PickRecord>,
    all: Seq<PickRecord>,
    bench: Seq<(i64, PickRecord)>,
    new: TeamDraft,
) -> bool {
    &&& new == TeamDraft {
        goalkeeper: new.goalkeeper,
        defenders: new.defenders,
        midfielders: new.midfielders,
        forwards: new.forwards,
        bench: new.bench,
        assman: new.assman,
        ..d
    }
    &&& slot_after(new.goalkeeper, d.goalkeeper, last_with(reps, PickRole::Keeper), all)
    &&& extends_with(new.defenders, d.defenders, picks_with(reps, PickRole::Defender), all)
    &&& extends_with(new.midfielders, d.midfielders, picks_with(reps, PickRole::Midfielder), all)
    &&& extends_with(new.forwards, d.forwards, picks_with(reps, PickRole::Forward), all)
    &&& slot_after(new.assman, d.assman, last_with(reps, PickRole::Manager), all)
    &&& extends_with(new.bench, d.bench, bench.map_values(|x: (i64, PickRecord)| x.1), all)
}

/// Why the picks could not be placed.
#[derive(Debug)]
pub enum PickError {
    /// A pick in the starting eleven whose player position names no position; it holds the text.
    UnknownPosition(String),
    /// A pick outside positions 1 to 16; it holds the position.
    PositionOutOfRange(i16),
}

/// `e` reports the first pick that goes nowhere.
pub open spec fn first_unknown_is(reps: Seq<PickRecord>, e: PickError) -> bool {
    exists|k: int|
        0 <= k < reps.len() && (#[trigger] pick_role(reps[k])) is None && roles_known(reps.take(k)) && match e {
            PickError::UnknownPosition(t) => 1 <= reps[k].position <= 11 && t@ == reps[k].player_position@,
            PickError::PositionOutOfRange(p) => !(1 <= reps[k].position <= 11) && p == reps[k].position,
        }
}

/// The placing of `reps` on the draft `d` (with the bench sorted by position) is `b`.
pub open spec fn placed_from(reps: Seq<PickRecord>, all: Seq<PickRecord>, d: TeamDraft, b: TeamDraft) -> bool {
    exists|sb: Seq<(i64, PickRecord)>| is_stable_sort_desc(bench_keyed(reps), sb) && picks_placed(d, reps, all, sb, b)
}

/// `res` is what placing the distinct picks `reps` on `d` gives.
pub open spec fn player_data_from(
    reps: Seq<PickRecord>,
    all: Seq<PickRecord>,
    d: TeamDraft,
    res: Result<TeamDataBuilder, PickError>,
) -> bool {
    &&& (roles_known(reps) <==> res is Ok)
    &&& res matches Ok(b) ==> placed_from(reps, all, d, b@)
    &&& res matches Err(e) ==> first_unknown_is(reps, e)
}

/// The picks of `records`, one per player, ordered by player id (the first record of each
/// player), placed on `d`, is `res`.
pub open spec fn is_player_data(records: Seq<PickRecord>, d: TeamDraft, res: Result<TeamDataBuilder, PickError>) -> bool {
    exists|sorted: Seq<(i64, PickRecord)>|
        is_stable_sort_desc(id_keyed(records), sorted) && player_data_from(
            dedup_ids(sorted.map_values(|x: (i64, PickRecord)| x.1)),
            records,
            d,
            res,
        )
}

proof fn lemma_extends_push(
    new: Seq<PlayerCard>,
    old: Seq<PlayerCard>,
    rs: Seq<PickRecord>,
    all: Seq<PickRecord>,
    c: PlayerCard,
    r: PickRecord,
)
    requires
        extends_with(new, old, rs, all),
        shows_pick(c, r, all),
    ensures
        extends_with(new.push(c), old, rs.push(r), all),
{
    assert(new.push(c).take(old.len() as int) =~= new.take(old.len() as int));
    assert(new.push(c).skip(old.len() as int) =~= new.skip(old.len() as int).push(c));
    let cs = new.push(c).skip(old.len() as int);
    assert forall|i: int| 0 <= i < cs.len() implies shows_pick(#[trigger] cs[i], rs.push(r)[i], all) by {
        if i < cs.len() - 1 {
            assert(cs[i] == new.skip(old.len() as int)[i]);
        }
    }
}

proof fn lemma_extends_empty(x: Seq<PlayerCard>, all: Seq<PickRecord>)
    ensures
        extends_with(x, x, Seq::empty(), all),
{
    assert(x.take(x.len() as int) =~= x);
    assert(x.skip(x.len() as int) =~= Seq::<PlayerCard>::empty());
}

/// The picks of `records`, ordered by player id (records of the same player: the first of
/// them), placed on the team: each in the starting eleven by its player position, the manager
/// at position 16, and the bench (positions 12 to 15) last, in position order. Fails on the
/// first pick that goes nowhere.
pub fn get_player_data(records: &Vec<PickRecord>, team_data: TeamDataBuilder) -> (res: Result<
    TeamDataBuilder,
    PickError,
>)
    requires
        forall|j: int| 0 <= j < records@.len() ==> points_fit(#[trigger] records@[j]),
    ensures
        is_player_data(records@, team_data@, res),
{
    let ghost all = records@;
    let ghost d = team_data@;
    let mut keyed: Vec<(i64, PickRecord)> = Vec::new();
    let mut i: usize = 0;
    while i < records.len()
        invariant
            all == records@,
            0 <= i <= all.len(),
            keyed@ == id_keyed(all).take(i as int),
        decreases all.len() - i,
    {
        let r = copy_pick(&records[i]);
        keyed.push((-(r.player_id as i64), r));
        assert(id_keyed(all).take(i + 1) =~= id_keyed(all).take(i as int).push(
            ((-(all[i as int].player_id as int)) as i64, all[i as int]),
        ));
        i = i + 1;
    }
    assert(id_keyed(all).take(all.len() as int) =~= id_keyed(all));
    let sorted = sort_by_key_desc(keyed);
    let ghost flat = sorted@.map_values(|x: (i64, PickRecord)| x.1);
    let mut reps: Vec<PickRecord> = Vec::new();
    let mut j: usize = 0;
    while j < sorted.len()
        invariant
            0 <= j <= sorted@.len(),
            flat == sorted@.map_values(|x: (i64, PickRecord)| x.1),
            reps@ == dedup_ids(flat.take(j as int)),
        decreases sorted@.len() - j,
    {
        assert(flat.take(j + 1).drop_last() =~= flat.take(j as int));
        assert(flat.take(j + 1).last() == flat[j as int]);
        if j == 0 || sorted[j - 1].1.player_id != sorted[j].1.player_id {
            reps.push(copy_pick(&sorted[j].1));
        } else {
            assert(flat.take(j + 1)[j - 1] == flat[j - 1]);
        }
        j = j + 1;
    }
    assert(flat.take(flat.len() as int) =~= flat);
    let ghost rs = reps@;
    proof {
        lemma_extends_empty(d.defenders, all);
        lemma_extends_empty(d.midfielders, all);
        lemma_extends_empty(d.forwards, all);
        assert(rs.take(0) =~= Seq::<PickRecord>::empty());
    }
    let mut b = team_data;
    let mut bench: Vec<(i64, PickRecord)> = Vec::new();
    let mut k: usize = 0;
    while k < reps.len()
        invariant
            rs == reps@,
            rs == dedup_ids(flat),
            flat == sorted@.map_values(|x: (i64, PickRecord)| x.1),
            is_stable_sort_desc(id_keyed(all), sorted@),
            all == records@,
            forall|m: int| 0 <= m < all.len() ==> points_fit(#[trigger] all[m]),
            0 <= k <= rs.len(),
            roles_known(rs.take(k as int)),
            b@ == (TeamDraft {
                goalkeeper: b@.goalkeeper,
                defenders: b@.defenders,
                midfielders: b@.midfielders,
                forwards: b@.forwards,
                assman: b@.assman,
                ..d
            }),
            slot_after(b@.goalkeeper, d.goalkeeper, last_with(rs.take(k as int), PickRole::Keeper), all),
            extends_with(b@.defenders, d.defenders, picks_with(rs.take(k as int), PickRole::Defender), all),
            extends_with(b@.midfielders, d.midfielders, picks_with(rs.take(k as int), PickRole::Midfielder), all),
            extends_with(b@.forwards, d.forwards, picks_with(rs.take(k as int), PickRole::Forward), all),
            slot_after(b@.assman, d.assman, last_with(rs.take(k as int), PickRole::Manager), all),
            bench@ == bench_keyed(rs.take(k as int)),
        decreases rs.len() - k,
    {
        let ghost before = rs.take(k as int);
        let ghost after = rs.take(k + 1);
        assert(after.drop_last() =~= before);
        assert(after.last() == rs[k as int]);
        let r = &reps[k];
        let ghost role = pick_role(*r);
        let card = pick_card(r, records);
        let ghost c = card@;
        if 1 <= r.position && r.position <= 11 {
            match PlayerPosition::parse(r.player_position.as_str()) {
                Ok(PlayerPosition::Goalkeeper) => {
                    b = b.goalkeeper(card);
                },
                Ok(PlayerPosition::Defender) => {
                    proof {
                        lemma_extends_push(b@.defenders, d.defenders, picks_with(before, PickRole::Defender), all, c, *r);
                    }
                    b = b.add_defender(card);
                },
                Ok(PlayerPosition::Midfielder) => {
                    proof {
                        lemma_extends_push(b@.midfielders, d.midfielders, picks_with(before, PickRole::Midfielder), all, c, *r);
                    }
                    b = b.add_midfielder(card);
                },
                Ok(PlayerPosition::Attacker) => {
                    proof {
                        lemma_extends_push(b@.forwards, d.forwards, picks_with(before, PickRole::Forward), all, c, *r);
                    }
                    b = b.add_forward(card);
                },
                Ok(PlayerPosition::Manager) => {
                    b = b.add_manager(card);
                },
                Err(e) => {
                    let res: Result<TeamDataBuilder, PickError> = Err(PickError::UnknownPosition(e.0));
                    proof {
                        assert(pick_role(rs[k as int]) is None);
                        assert(first_unknown_is(rs, PickError::UnknownPosition(e.0)));
                        assert(player_data_from(rs, all, d, res));
                    }
                    return res;
                },
            }
        } else if 12 <= r.position && r.position <= 15 {
            bench.push((-(r.position as i64), copy_pick(r)));
            assert(bench_keyed(after) =~= bench_keyed(before).push(((-(r.position as int)) as i64, *r)));
        } else if r.position == 16 {
            b = b.add_manager(card);
        } else {
            let res: Result<TeamDataBuilder, PickError> = Err(PickError::PositionOutOfRange(r.position));
            proof {
                assert(pick_role(rs[k as int]) is None);
                assert(first_unknown_is(rs, PickError::PositionOutOfRange(r.position)));
                assert(player_data_from(rs, all, d, res));
            }
            return res;
        }
        proof {
            assert(roles_known(after)) by {
                assert forall|m: int| 0 <= m < after.len() implies (#[trigger] pick_role(after[m])) is Some by {
                    if m < k {
                        assert(after[m] == before[m]);
                    }
                }
            }
        }
        k = k + 1;
    }
    assert(rs.take(rs.len() as int) =~= rs);
    let sorted_bench = sort_by_key_desc(bench);
    let ghost sb = sorted_bench@;
    let ghost bench_reps = sb.map_values(|x: (i64, PickRecord)| x.1);
    let ghost placed = b@;
    proof {
        lemma_extends_empty(d.bench, all);
        assert(bench_reps.take(0) =~= Seq::<PickRecord>::empty());
    }
    let mut m: usize = 0;
    while m < sorted_bench.len()
        invariant
            0 <= m <= sb.len(),
            sb == sorted_bench@,
            bench_reps == sb.map_values(|x: (i64, PickRecord)| x.1),
            all == records@,
            forall|q: int| 0 <= q < all.len() ==> points_fit(#[trigger] all[q]),
            b@ == (TeamDraft { bench: b@.bench, ..placed }),
            extends_with(b@.bench, d.bench, bench_reps.take(m as int), all),
        decreases sb.len() - m,
    {
        let card = pick_card(&sorted_bench[m].1, records);
        proof {
            lemma_extends_push(b@.bench, d.bench, bench_reps.take(m as int), all, card@, bench_reps[m as int]);
            assert(bench_reps.take(m + 1) =~= bench_reps.take(m as int).push(bench_reps[m as int]));
        }
        b = b.add_bench_player(card);
        m = m + 1;
    }
    assert(bench_reps.take(sb.len() as int) =~= bench_reps);
    let res: Result<TeamDataBuilder, PickError> = Ok(b);
    assert(picks_placed(d, rs, all, sb, b@));
    assert(placed_from(rs, all, d, b@));
    assert(player_data_from(rs, all, d, res));
    res
}

/// A team's summary for a game week, as the database gives it.
#[derive(Debug)]
pub struct TeamQueryResult {
    pub team_name: String,
    pub gw_rank: Option<i32>,
    pub overall_rank: i32,
    pub chip: Option<String>,
    pub points: Option<i16>,
}

/// The number of a value that may be missing: zero when it is.
pub open spec fn or_zero<T: Integer>(o: Option<T>) -> int {
    match o {
        Some(v) => v as int,
        None => 0,
    }
}

/// The chip a team played, when its text names one.
pub open spec fn played_chip(chip: Option<String>) -> Option<Chip> {
    match chip {
        Some(t) => if is_chip_name(t@) {
            Some(choose|c: Chip| chip_name(c) == t@)
        } else {
            None
        },
        None => None,
    }
}

/// The builder given the team's summary: its points and game week rank (zero when missing),
/// its name, overall rank, the game week, and the chip when its text names one. `None` when
/// `game_week` is no game week.
pub fn get_basic_team_data(result: &TeamQueryResult, game_week: i16, team_data: TeamDataBuilder) -> (res:
    Option<TeamDataBuilder>)
    ensures
        res is None <==> !is_game_week_number(game_week as int),
        res matches Some(b) ==> b@ == (TeamDraft {
            points: Some(or_zero(result.points) as i64),
            team_name: Some(result.team_name@),
            gw_rank: Some(or_zero(result.gw_rank) as i64),
            overall_rank: Some(result.overall_rank as i64),
            game_week: Some(GameWeek::from_number(game_week as u8)),
            chip: match played_chip(result.chip) {
                Some(c) => Some(c),
                None => team_data@.chip,
            },
            ..team_data@
        }),
{
    if game_week < 1 || game_week > 38 {
        return None;
    }
    let week = match GameWeek::new(game_week as u8) {
        Ok(w) => w,
        Err(_) => {
            return None;
        },
    };
    let points: i64 = match result.points {
        Some(p) => p as i64,
        None => 0,
    };
    let gw_rank: i64 = match result.gw_rank {
        Some(r) => r as i64,
        None => 0,
    };
    let mut b = team_data.points(points).team_name(result.team_name.clone()).gw_rank(gw_rank).overall_rank(
        result.overall_rank as i64,
    ).game_week(week);
    match &result.chip {
        Some(text) => {
            match Chip::parse(text.as_str()) {
                Ok(chip) => {
                    proof {
                        Chip::lemma_names_distinct(chip, choose|c: Chip| chip_name(c) == text@);
                    }
                    b = b.add_chip(chip);
                },
                Err(_) => {},
            }
        },
        None => {},
    }
    Some(b)
}

} // verus!
