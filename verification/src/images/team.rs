//! The data behind the team image: a team's players by line, its ranks, points, chip and
//! transfers, with a builder that checks that everything required is there.
use super::bands::Placement;
use super::player_card::{PlayerCard, PlayerInfo};
use super::util::{calculate_player_card_xs, card_x, CornerRounding};
use crate::text::{decimal, decimal_digits, decimal_string, push_decimal};
use crate::types::chip_pretty_name;
use thousands::Separable;
use crate::types::{Chip, GameWeek};
use vstd::prelude::*;

verus! {

/// A transfer as the team image shows it. Prices are in tenths of a million, as the FPL API
/// gives them.
#[derive(Debug)]
pub struct TransferInfo {
    pub player_in_name: String,
    pub player_in_code: u32,
    pub player_in_cost: i32,
    pub player_out_name: String,
    pub player_out_code: u32,
    pub player_out_cost: i32,
}

impl TransferInfo {
    pub fn new(
        player_in_name: String,
        player_in_code: u32,
        player_in_cost: i32,
        player_out_name: String,
        player_out_code: u32,
        player_out_cost: i32,
    ) -> (t: Self)
        ensures
            t == (TransferInfo {
                player_in_name,
                player_in_code,
                player_in_cost,
                player_out_name,
                player_out_code,
                player_out_cost,
            }),
    {
        Self {
            player_in_name,
            player_in_code,
            player_in_cost,
            player_out_name,
            player_out_code,
            player_out_cost,
        }
    }
}

/// A price in tenths of a million as a number of millions: the whole part, then the tenths
/// after a point unless there are none (`55` is `5.5`, `100` is `10`).
pub open spec fn price_text(tenths: int) -> Seq<char> {
    let magnitude = if tenths < 0 { -tenths } else { tenths };
    let body = if magnitude % 10 == 0 {
        decimal(magnitude / 10)
    } else {
        decimal(magnitude / 10) + "."@ + decimal(magnitude % 10)
    };
    if tenths < 0 {
        "-"@ + body
    } else {
        body
    }
}

/// The text of a transfer row: `out (£price) —› in (£price)`.
pub open spec fn transfer_row_text(t: TransferInfo) -> Seq<char> {
    t.player_out_name@ + " (£"@ + price_text(t.player_out_cost as int) + ") —› "@ + t.player_in_name@ + " (£"@
        + price_text(t.player_in_cost as int) + ")"@
}

/// Appends the price given in tenths of a million, as a number of millions.
pub fn push_price(s: &mut String, tenths: i32)
    ensures
        final(s)@ == old(s)@ + price_text(tenths as int),
{
    let magnitude: i64 = if tenths < 0 {
        -(tenths as i64)
    } else {
        tenths as i64
    };
    let ghost start = s@;
    if tenths < 0 {
        s.append("-");
    }
    let ghost signed = s@;
    push_decimal(s, magnitude / 10);
    let ghost whole = decimal((magnitude / 10) as int);
    assert(s@ =~= signed + whole);
    if magnitude % 10 != 0 {
        s.append(".");
        push_decimal(s, magnitude % 10);
        assert(s@ =~= signed + (whole + "."@ + decimal((magnitude % 10) as int)));
    }
    if tenths < 0 {
        assert(s@ =~= start + price_text(tenths as int));
    } else {
        assert(s@ =~= start + price_text(tenths as int));
    }
}

/// The text of a transfer row.
pub fn transfer_text(t: &TransferInfo) -> (s: String)
    ensures
        s@ == transfer_row_text(*t),
{
    let mut s = t.player_out_name.clone();
    s.append(" (£");
    push_price(&mut s, t.player_out_cost);
    s.append(") —› ");
    s.append(t.player_in_name.as_str());
    s.append(" (£");
    push_price(&mut s, t.player_in_cost);
    s.append(")");
    s
}

/// The cards, as their views.
pub open spec fn cards(s: Seq<PlayerInfo>) -> Seq<PlayerCard> {
    s.map_values(|p: PlayerInfo| p@)
}

/// The card of an optional player, as its view.
pub open spec fn opt_card(p: Option<PlayerInfo>) -> Option<PlayerCard> {
    match p {
        Some(p) => Some(p@),
        None => None,
    }
}

/// Copies of the cards.
pub fn clone_cards(v: &Vec<PlayerInfo>) -> (c: Vec<PlayerInfo>)
    ensures
        cards(c@) == cards(v@),
{
    let mut c: Vec<PlayerInfo> = Vec::new();
    let mut i: usize = 0;
    while i < v.len()
        invariant
            0 <= i <= v.len(),
            cards(c@) == cards(v@.take(i as int)),
        decreases v.len() - i,
    {
        let p = v[i].clone();
        let ghost before = c@;
        c.push(p);
        assert(cards(c@) =~= cards(before).push(p@));
        assert(cards(v@.take(i + 1)) =~= cards(v@.take(i as int)).push(v@[i as int]@));
        i = i + 1;
    }
    assert(v@.take(v.len() as int) =~= v@);
    c
}

/// What a team builder has been given so far.
pub struct TeamDraft {
    pub team_name: Option<Seq<char>>,
    pub gw_rank: Option<i64>,
    pub overall_rank: Option<i64>,
    pub points: Option<i64>,
    pub game_week: Option<GameWeek>,
    pub goalkeeper: Option<PlayerCard>,
    pub defenders: Seq<PlayerCard>,
    pub midfielders: Seq<PlayerCard>,
    pub forwards: Seq<PlayerCard>,
    pub bench: Seq<PlayerCard>,
    pub assman: Option<PlayerCard>,
    pub transfers: Seq<TransferInfo>,
    pub chip: Option<Chip>,
}

/// Collects a team's data piece by piece; `build` checks that the required pieces are there.
#[derive(Debug)]
pub struct TeamDataBuilder {
    team_name: Option<String>,
    gw_rank: Option<i64>,
    overall_rank: Option<i64>,
    points: Option<i64>,
    game_week: Option<GameWeek>,
    goalkeeper: Option<PlayerInfo>,
    defenders: Vec<PlayerInfo>,
    midfielders: Vec<PlayerInfo>,
    forwards: Vec<PlayerInfo>,
    bench: Vec<PlayerInfo>,
    assman: Option<PlayerInfo>,
    transfers: Vec<TransferInfo>,
    chip: Option<Chip>,
}

impl View for TeamDataBuilder {
    type V = TeamDraft;

    closed spec fn view(&self) -> TeamDraft {
        TeamDraft {
            team_name: match self.team_name {
                Some(n) => Some(n@),
                None => None,
            },
            gw_rank: self.gw_rank,
            overall_rank: self.overall_rank,
            points: self.points,
            game_week: self.game_week,
            goalkeeper: opt_card(self.goalkeeper),
            defenders: cards(self.defenders@),
            midfielders: cards(self.midfielders@),
            forwards: cards(self.forwards@),
            bench: cards(self.bench@),
            assman: opt_card(self.assman),
            transfers: self.transfers@,
            chip: self.chip,
        }
    }
}

/// The draft of a builder that has been given nothing.
pub open spec fn empty_draft() -> TeamDraft {
    TeamDraft {
        team_name: None,
        gw_rank: None,
        overall_rank: None,
        points: None,
        game_week: None,
        goalkeeper: None,
        defenders: Seq::empty(),
        midfielders: Seq::empty(),
        forwards: Seq::empty(),
        bench: Seq::empty(),
        assman: None,
        transfers: Seq::empty(),
        chip: None,
    }
}

/// Why `build` refused: the first required piece that is missing.
pub open spec fn missing_piece(d: TeamDraft) -> Option<Seq<char>> {
    if d.team_name is None {
        Some("Team Name Required"@)
    } else if d.gw_rank is None {
        Some("GW Rank Required"@)
    } else if d.overall_rank is None {
        Some("Overall Rank Required"@)
    } else if d.points is None {
        Some("Points Required"@)
    } else if d.game_week is None {
        Some("Game Week Required"@)
    } else if d.goalkeeper is None {
        Some("Goalkeeper Required"@)
    } else {
        None
    }
}

impl TeamDataBuilder {
    pub fn new() -> (b: Self)
        ensures
            b@ == empty_draft(),
    {
        let b = TeamDataBuilder {
            team_name: None,
            gw_rank: None,
            overall_rank: None,
            points: None,
            game_week: None,
            goalkeeper: None,
            defenders: Vec::new(),
            midfielders: Vec::new(),
            forwards: Vec::new(),
            bench: Vec::new(),
            assman: None,
            transfers: Vec::new(),
            chip: None,
        };
        assert(b@.defenders =~= Seq::<PlayerCard>::empty());
        assert(b@.midfielders =~= Seq::<PlayerCard>::empty());
        assert(b@.forwards =~= Seq::<PlayerCard>::empty());
        assert(b@.bench =~= Seq::<PlayerCard>::empty());
        b
    }

    pub fn team_name(self, name: String) -> (b: Self)
        ensures
            b@ == (TeamDraft { team_name: Some(name@), ..self@ }),
    {
        let mut b = self;
        b.team_name = Some(name);
        b
    }

    pub fn gw_rank(self, rank: i64) -> (b: Self)
        ensures
            b@ == (TeamDraft { gw_rank: Some(rank), ..self@ }),
    {
        let mut b = self;
        b.gw_rank = Some(rank);
        b
    }

    pub fn overall_rank(self, rank: i64) -> (b: Self)
        ensures
            b@ == (TeamDraft { overall_rank: Some(rank), ..self@ }),
    {
        let mut b = self;
        b.overall_rank = Some(rank);
        b
    }

    pub fn points(self, points: i64) -> (b: Self)
        ensures
            b@ == (TeamDraft { points: Some(points), ..self@ }),
    {
        let mut b = self;
        b.points = Some(points);
        b
    }

    pub fn game_week(self, gw: GameWeek) -> (b: Self)
        ensures
            b@ == (TeamDraft { game_week: Some(gw), ..self@ }),
    {
        let mut b = self;
        b.game_week = Some(gw);
        b
    }

    pub fn goalkeeper(self, keeper: PlayerInfo) -> (b: Self)
        ensures
            b@ == (TeamDraft { goalkeeper: Some(keeper@), ..self@ }),
    {
        let mut b = self;
        b.goalkeeper = Some(keeper);
        b
    }

    pub fn add_defender(self, defender: PlayerInfo) -> (b: Self)
        ensures
            b@ == (TeamDraft { defenders: self@.defenders.push(defender@), ..self@ }),
    {
        let mut b = self;
        b.defenders.push(defender);
        assert(cards(b.defenders@) =~= cards(self.defenders@).push(defender@));
        b
    }

    pub fn add_midfielder(self, midfielder: PlayerInfo) -> (b: Self)
        ensures
            b@ == (TeamDraft { midfielders: self@.midfielders.push(midfielder@), ..self@ }),
    {
        let mut b = self;
        b.midfielders.push(midfielder);
        assert(cards(b.midfielders@) =~= cards(self.midfielders@).push(midfielder@));
        b
    }

    pub fn add_forward(self, forward: PlayerInfo) -> (b: Self)
        ensures
            b@ == (TeamDraft { forwards: self@.forwards.push(forward@), ..self@ }),
    {
        let mut b = self;
        b.forwards.push(forward);
        assert(cards(b.forwards@) =~= cards(self.forwards@).push(forward@));
        b
    }

    pub fn add_bench_player(self, player: PlayerInfo) -> (b: Self)
        ensures
            b@ == (TeamDraft { bench: self@.bench.push(player@), ..self@ }),
    {
        let mut b = self;
        b.bench.push(player);
        assert(cards(b.bench@) =~= cards(self.bench@).push(player@));
        b
    }

    pub fn add_manager(self, player: PlayerInfo) -> (b: Self)
        ensures
            b@ == (TeamDraft { assman: Some(player@), ..self@ }),
    {
        let mut b = self;
        b.assman = Some(player);
        b
    }

    pub fn add_transfer(self, transfer: TransferInfo) -> (b: Self)
        ensures
            b@ == (TeamDraft { transfers: self@.transfers.push(transfer), ..self@ }),
    {
        let mut b = self;
        b.transfers.push(transfer);
        b
    }

    pub fn add_chip(self, chip: Chip) -> (b: Self)
        ensures
            b@ == (TeamDraft { chip: Some(chip), ..self@ }),
    {
        let mut b = self;
        b.chip = Some(chip);
        b
    }

    /// The team, or the first required piece that is missing: the team name, the game week
    /// rank, the overall rank, the points, the game week and the goalkeeper, in that order.
    pub fn build(self) -> (res: Result<TeamData, &'static str>)
        ensures
            res matches Err(e) ==> missing_piece(self@) == Some(e@),
            res matches Ok(data) ==> missing_piece(self@) is None && data.view_draft() == self@,
            missing_piece(self@) is None ==> res is Ok,
    {
        proof {
            reveal_strlit("Team Name Required");
            reveal_strlit("GW Rank Required");
            reveal_strlit("Overall Rank Required");
            reveal_strlit("Points Required");
            reveal_strlit("Game Week Required");
            reveal_strlit("Goalkeeper Required");
        }
        let b = self;
        let team_name = match b.team_name {
            Some(n) => n,
            None => return Err("Team Name Required"),
        };
        let gw_rank = match b.gw_rank {
            Some(r) => r,
            None => return Err("GW Rank Required"),
        };
        let overall_rank = match b.overall_rank {
            Some(r) => r,
            None => return Err("Overall Rank Required"),
        };
        let points = match b.points {
            Some(p) => p,
            None => return Err("Points Required"),
        };
        let game_week = match b.game_week {
            Some(g) => g,
            None => return Err("Game Week Required"),
        };
        let goalkeeper = match b.goalkeeper {
            Some(g) => g,
            None => return Err("Goalkeeper Required"),
        };
        Ok(
            TeamData {
                team_name,
                gw_rank,
                overall_rank,
                points,
                game_week,
                goalkeeper,
                defenders: b.defenders,
                midfielders: b.midfielders,
                forwards: b.forwards,
                assman: b.assman,
                bench: b.bench,
                transfers: b.transfers,
                chip: b.chip,
            },
        )
    }
}

impl Default for TeamDataBuilder {
    fn default() -> (b: Self)
        ensures
            b@ == empty_draft(),
    {
        Self::new()
    }
}

/// A team, ready to draw.
#[derive(Debug)]
pub struct TeamData {
    pub team_name: String,
    pub gw_rank: i64,
    pub overall_rank: i64,
    pub points: i64,
    pub game_week: GameWeek,
    pub goalkeeper: PlayerInfo,
    pub defenders: Vec<PlayerInfo>,
    pub midfielders: Vec<PlayerInfo>,
    pub forwards: Vec<PlayerInfo>,
    pub assman: Option<PlayerInfo>,
    pub bench: Vec<PlayerInfo>,
    pub transfers: Vec<TransferInfo>,
    pub chip: Option<Chip>,
}

/// The cards of the last row of the pitch: the manager, if any, then the bench.
pub open spec fn last_row(assman: Option<PlayerCard>, bench: Seq<PlayerCard>) -> Seq<PlayerCard> {
    match assman {
        Some(m) => seq![m] + bench,
        None => bench,
    }
}

impl TeamData {
    /// The team as a complete draft.
    pub open spec fn view_draft(&self) -> TeamDraft {
        TeamDraft {
            team_name: Some(self.team_name@),
            gw_rank: Some(self.gw_rank),
            overall_rank: Some(self.overall_rank),
            points: Some(self.points),
            game_week: Some(self.game_week),
            goalkeeper: Some(self.goalkeeper@),
            defenders: cards(self.defenders@),
            midfielders: cards(self.midfielders@),
            forwards: cards(self.forwards@),
            bench: cards(self.bench@),
            assman: opt_card(self.assman),
            transfers: self.transfers@,
            chip: self.chip,
        }
    }

    pub fn builder() -> (b: TeamDataBuilder)
        ensures
            b@ == empty_draft(),
    {
        TeamDataBuilder::new()
    }

    /// The rows of cards on the pitch, top to bottom: the goalkeeper, the defenders, the
    /// midfielders, the forwards, then the manager (if any) with the bench.
    pub fn get_player_rows(&self) -> (rows: Vec<Vec<PlayerInfo>>)
        ensures
            rows@.len() == 5,
            cards(rows@[0]@) == seq![self.goalkeeper@],
            cards(rows@[1]@) == cards(self.defenders@),
            cards(rows@[2]@) == cards(self.midfielders@),
            cards(rows@[3]@) == cards(self.forwards@),
            cards(rows@[4]@) == last_row(opt_card(self.assman), cards(self.bench@)),
    {
        let mut keeper_row: Vec<PlayerInfo> = Vec::new();
        keeper_row.push(self.goalkeeper.clone());
        assert(cards(keeper_row@) =~= seq![self.goalkeeper@]);
        let mut last: Vec<PlayerInfo> = Vec::new();
        match &self.assman {
            Some(m) => {
                last.push(m.clone());
            },
            None => {},
        }
        let ghost head = cards(last@);
        let bench = clone_cards(&self.bench);
        let mut i: usize = 0;
        while i < bench.len()
            invariant
                0 <= i <= bench.len(),
                cards(last@) == head + cards(bench@.take(i as int)),
            decreases bench.len() - i,
        {
            let ghost before = last@;
            last.push(bench[i].clone());
            assert(cards(last@) =~= cards(before).push(bench@[i as int]@));
            assert(cards(bench@.take(i + 1)) =~= cards(bench@.take(i as int)).push(bench@[i as int]@));
            i = i + 1;
        }
        assert(bench@.take(bench.len() as int) =~= bench@);
        assert(cards(last@) =~= last_row(opt_card(self.assman), cards(self.bench@)));
        let mut rows: Vec<Vec<PlayerInfo>> = Vec::new();
        rows.push(keeper_row);
        rows.push(clone_cards(&self.defenders));
        rows.push(clone_cards(&self.midfielders));
        rows.push(clone_cards(&self.forwards));
        rows.push(last);
        rows
    }
}

/// The whole-pixel measures of the team image.
#[derive(Debug, Clone, Copy)]
pub struct TeamLayout {
    pub width: u32,
    pub player_card_height: u32,
    pub player_card_width: u32,
    pub player_card_vertical_padding: u32,
    pub transfer_row_height: u32,
    pub header_height: u32,
    pub header_vertical_padding: u32,
    pub transfer_row_vertical_padding: u32,
}

impl Default for TeamLayout {
    fn default() -> (l: Self)
        ensures
            l.width == 1000 && l.player_card_height == 200 && l.player_card_width == 150
                && l.player_card_vertical_padding == 50 && l.transfer_row_height == 200 && l.header_height == 200
                && l.header_vertical_padding == 25 && l.transfer_row_vertical_padding == 25,
    {
        TeamLayout {
            width: 1000,
            player_card_height: 200,
            player_card_width: 150,
            player_card_vertical_padding: 50,
            transfer_row_height: 200,
            header_height: 200,
            header_vertical_padding: 25,
            transfer_row_vertical_padding: 25,
        }
    }
}

/// Where the bands and cards of the team image go.
#[derive(Debug)]
pub struct TeamImageLayout {
    pub height: u32,
    /// The height of the white band at the top.
    pub header_band: u32,
    /// The height of the pitch, below the header band.
    pub pitch_height: u32,
    /// The top of the transfers band, below the pitch.
    pub transfers_y: u32,
    pub transfers_height: u32,
    /// The cards of each row of the pitch, top to bottom, in the order of `get_player_rows`.
    pub card_rows: Vec<Vec<Placement>>,
}

/// The height of the pitch: five rows of cards with padding above, between and below them.
pub open spec fn pitch_height(l: TeamLayout) -> int {
    5 * l.player_card_height + 6 * l.player_card_vertical_padding
}

/// The height of the transfers band with `n` transfers.
pub open spec fn transfers_band_height(l: TeamLayout, n: int) -> int {
    n * l.transfer_row_height + 2 * l.transfer_row_vertical_padding
}

/// The top of row `r` of the pitch.
pub open spec fn pitch_row_y(l: TeamLayout, r: int) -> int {
    l.header_height + 2 * l.header_vertical_padding + r * (l.player_card_height + l.player_card_vertical_padding)
}

/// The number of cards in each row of the pitch.
pub open spec fn pitch_row_sizes(d: TeamData) -> Seq<int> {
    seq![
        1,
        d.defenders@.len() as int,
        d.midfielders@.len() as int,
        d.forwards@.len() as int,
        (if d.assman is Some { 1int } else { 0int }) + d.bench@.len(),
    ]
}

/// The image of the team fits in the `u32` coordinates it is drawn with.
pub open spec fn team_image_fits(l: TeamLayout, d: TeamData) -> bool {
    &&& l.header_height + l.header_vertical_padding + pitch_height(l) + transfers_band_height(l, d.transfers@.len() as int)
        <= u32::MAX
    &&& pitch_row_y(l, 5) <= u32::MAX
    &&& d.transfers@.len() <= u32::MAX
    &&& forall|r: int| 0 <= r < 5 ==> #[trigger] pitch_row_sizes(d)[r] < u32::MAX && l.player_card_width
        * pitch_row_sizes(d)[r] <= u32::MAX
}

impl TeamLayout {
    /// The left edges of `num_cards` cards spread over the width of the image.
    pub fn calculate_player_card_xs(&self, num_cards: u32) -> (xs: Vec<u32>)
        requires
            self.player_card_width * num_cards <= u32::MAX,
            num_cards < u32::MAX,
        ensures
            xs@.len() == num_cards,
            forall|i: int| 0 <= i < num_cards ==> #[trigger] xs@[i] as int == card_x(
                self.player_card_width as int,
                self.width as int,
                num_cards as int,
                i,
            ),
    {
        calculate_player_card_xs(self.player_card_width, self.width, num_cards)
    }

    /// Where the bands and the cards of the team image go: the header band, the pitch with
    /// its five rows of cards each spread over the width, then the transfers band.
    pub fn layout(&self, data: &TeamData) -> (l: TeamImageLayout)
        requires
            team_image_fits(*self, *data),
        ensures
            l.header_band == self.header_height + self.header_vertical_padding,
            l.pitch_height == pitch_height(*self),
            l.transfers_height == transfers_band_height(*self, data.transfers@.len() as int),
            l.transfers_y == pitch_height(*self) + self.header_height + self.header_vertical_padding,
            l.height == self.header_height + pitch_height(*self) + transfers_band_height(*self, data.transfers@.len() as int),
            l.card_rows@.len() == 5,
            forall|r: int| 0 <= r < 5 ==> (#[trigger] l.card_rows@[r])@.len() == pitch_row_sizes(*data)[r],
            forall|r: int, c: int|
                0 <= r < 5 && 0 <= c < pitch_row_sizes(*data)[r] ==> #[trigger] l.card_rows@[r]@[c] == (Placement {
                    x: card_x(self.player_card_width as int, self.width as int, pitch_row_sizes(*data)[r], c) as u32,
                    y: pitch_row_y(*self, r) as u32,
                    width: self.player_card_width,
                    height: self.player_card_height,
                }),
    {
        proof {
            let n = data.transfers@.len() as int;
            assert(0 <= n * self.transfer_row_height) by (nonlinear_arith)
                requires 0 <= n, 0 <= self.transfer_row_height;
            assert(pitch_row_sizes(*data)[4] < u32::MAX);
        }
        let pitch = 5 * self.player_card_height + 6 * self.player_card_vertical_padding;
        let transfers_height = (data.transfers.len() as u32) * self.transfer_row_height + 2
            * self.transfer_row_vertical_padding;
        let header_band = self.header_height + self.header_vertical_padding;
        let sizes: [usize; 5] = [
            1,
            data.defenders.len(),
            data.midfielders.len(),
            data.forwards.len(),
            (if data.assman.is_some() { 1 } else { 0 }) + data.bench.len(),
        ];
        let ghost want = pitch_row_sizes(*data);
        assert(sizes@ =~= want.map_values(|x: int| x as usize));
        let mut card_rows: Vec<Vec<Placement>> = Vec::new();
        let mut y = self.header_height + 2 * self.header_vertical_padding;
        let mut r: usize = 0;
        while r < 5
            invariant
                team_image_fits(*self, *data),
                want == pitch_row_sizes(*data),
                sizes@ == want.map_values(|x: int| x as usize),
                0 <= r <= 5,
                y == pitch_row_y(*self, r as int),
                card_rows@.len() == r,
                forall|r2: int| 0 <= r2 < r ==> (#[trigger] card_rows@[r2])@.len() == want[r2],
                forall|r2: int, c: int|
                    0 <= r2 < r && 0 <= c < want[r2] ==> #[trigger] card_rows@[r2]@[c] == (Placement {
                        x: card_x(self.player_card_width as int, self.width as int, want[r2], c) as u32,
                        y: pitch_row_y(*self, r2) as u32,
                        width: self.player_card_width,
                        height: self.player_card_height,
                    }),
            decreases 5 - r,
        {
            let n = sizes[r] as u32;
            assert(n == want[r as int]);
            let xs = self.calculate_player_card_xs(n);
            let mut cards: Vec<Placement> = Vec::new();
            let mut c: usize = 0;
            while c < xs.len()
                invariant
                    0 <= c <= xs@.len(),
                    xs@.len() == n,
                    forall|i: int| 0 <= i < n ==> #[trigger] xs@[i] as int == card_x(
                        self.player_card_width as int,
                        self.width as int,
                        n as int,
                        i,
                    ),
                    cards@.len() == c,
                    forall|c2: int| 0 <= c2 < c ==> #[trigger] cards@[c2] == (Placement {
                        x: xs@[c2],
                        y,
                        width: self.player_card_width,
                        height: self.player_card_height,
                    }),
                decreases xs@.len() - c,
            {
                cards.push(Placement { x: xs[c], y, width: self.player_card_width, height: self.player_card_height });
                c = c + 1;
            }
            let ghost before = card_rows@;
            let ghost placed = cards@;
            card_rows.push(cards);
            proof {
                assert forall|r2: int| 0 <= r2 < r + 1 implies (#[trigger] card_rows@[r2])@.len() == want[r2] by {
                    if r2 < r {
                        assert(card_rows@[r2] == before[r2]);
                    }
                }
                assert forall|r2: int, c2: int|
                    0 <= r2 < r + 1 && 0 <= c2 < want[r2] implies #[trigger] card_rows@[r2]@[c2] == (Placement {
                        x: card_x(self.player_card_width as int, self.width as int, want[r2], c2) as u32,
                        y: pitch_row_y(*self, r2) as u32,
                        width: self.player_card_width,
                        height: self.player_card_height,
                    }) by {
                    if r2 < r {
                        assert(card_rows@[r2] == before[r2]);
                        assert(before[r2]@[c2] == card_rows@[r2]@[c2]);
                    } else {
                        assert(card_rows@[r2]@ == placed);
                        assert(placed[c2].x as int == card_x(self.player_card_width as int, self.width as int, want[r2], c2));
                    }
                }
                assert(pitch_row_y(*self, r + 1) == y + self.player_card_height + self.player_card_vertical_padding)
                    by (nonlinear_arith)
                    requires y == pitch_row_y(*self, r as int);
                assert(pitch_row_y(*self, r + 1) <= pitch_row_y(*self, 5)) by (nonlinear_arith)
                    requires r + 1 <= 5;
            }
            y = y + self.player_card_height + self.player_card_vertical_padding;
            r = r + 1;
        }
        TeamImageLayout {
            height: self.header_height + pitch + transfers_height,
            header_band,
            pitch_height: pitch,
            transfers_y: pitch + header_band,
            transfers_height,
            card_rows,
        }
    }

    /// Whether a row of `size` cards fits across the image.
    fn row_fits(&self, size: u128) -> (b: bool)
        requires
            size <= 0x1_0000_0000_0000_0000,
        ensures
            b == (size < u32::MAX && self.player_card_width * size <= u32::MAX),
    {
        if size >= 0xffff_ffff {
            return false;
        }
        let card_w = self.player_card_width as u128;
        assert(card_w * size <= 0xffff_ffff * 0xffff_ffff) by (nonlinear_arith)
            requires card_w <= 0xffff_ffff, size <= 0xffff_ffff;
        card_w * size <= 0xffff_ffff
    }

    /// Whether the image of `data` fits in the `u32` coordinates it is drawn with.
    pub fn fits(&self, data: &TeamData) -> (b: bool)
        ensures
            b == team_image_fits(*self, *data),
    {
        let max: u128 = 0xffff_ffff;
        let n = data.transfers.len() as u128;
        let row_h = self.transfer_row_height as u128;
        assert(n * row_h <= 0x1_0000_0000_0000_0000 * 0xffff_ffff) by (nonlinear_arith)
            requires n <= 0x1_0000_0000_0000_0000, row_h <= 0xffff_ffff;
        let pitch = 5 * (self.player_card_height as u128) + 6 * (self.player_card_vertical_padding as u128);
        let band = n * row_h + 2 * (self.transfer_row_vertical_padding as u128);
        let total = self.header_height as u128 + self.header_vertical_padding as u128 + pitch + band;
        let last_row = self.header_height as u128 + 2 * (self.header_vertical_padding as u128) + 5 * (
        self.player_card_height as u128 + self.player_card_vertical_padding as u128);
        let assman: u128 = if data.assman.is_some() { 1 } else { 0 };
        let ghost sizes = pitch_row_sizes(*data);
        let fits = total <= max && last_row <= max && n <= max && self.row_fits(1) && self.row_fits(
            data.defenders.len() as u128,
        ) && self.row_fits(data.midfielders.len() as u128) && self.row_fits(data.forwards.len() as u128)
            && self.row_fits(assman + data.bench.len() as u128);
        proof {
            if fits {
                assert forall|r: int| 0 <= r < 5 implies #[trigger] sizes[r] < u32::MAX && self.player_card_width
                    * sizes[r] <= u32::MAX by {
                    if r == 4 {
                        assert(sizes[4] == assman + data.bench@.len());
                    }
                }
            } else if total <= max && last_row <= max && n <= max {
                assert(!(sizes[0] < u32::MAX && self.player_card_width * sizes[0] <= u32::MAX) || !(sizes[1]
                    < u32::MAX && self.player_card_width * sizes[1] <= u32::MAX) || !(sizes[2] < u32::MAX
                    && self.player_card_width * sizes[2] <= u32::MAX) || !(sizes[3] < u32::MAX
                    && self.player_card_width * sizes[3] <= u32::MAX) || !(sizes[4] < u32::MAX
                    && self.player_card_width * sizes[4] <= u32::MAX));
            }
        }
        fits
    }
}

/// Decimal digits with a comma before every group of three counted from the right.
pub open spec fn comma_groups(digits: Seq<char>) -> Seq<char>
    decreases digits.len(),
{
    if digits.len() <= 3 {
        digits
    } else {
        comma_groups(digits.take(digits.len() - 3)) + ","@ + digits.skip(digits.len() - 3)
    }
}

/// An integer written with thousands separated by commas: `-1,234,567`.
pub open spec fn with_commas(n: int) -> Seq<char> {
    if n < 0 {
        "-"@ + comma_groups(decimal_digits((-n) as nat))
    } else {
        comma_groups(decimal_digits(n as nat))
    }
}

/// The thousands crate's `Separable::separate_with_commas` on an `i64`: its decimal text with
/// a comma put every three digits of its run of digits, counted from the right, as its
/// source shows.
#[verifier::external_body]
fn separate_with_commas(n: i64) -> (s: String)
    ensures
        s@ == with_commas(n as int),
{
    n.separate_with_commas()
}

/// The texts of the header of the team image.
#[derive(Debug)]
pub struct TeamHeaderTexts {
    pub points: String,
    /// The chip played, if any.
    pub chip: Option<String>,
    pub team_name: String,
    /// `GW` and the game week.
    pub game_week: String,
    pub gw_rank: String,
    pub overall_rank: String,
}

impl TeamData {
    /// The texts of the header: the points, the chip's shown name, the team's name, the game week,
    /// and both ranks with their thousands separated by commas.
    pub fn header_texts(&self) -> (h: TeamHeaderTexts)
        ensures
            h.points@ == decimal(self.points as int),
            h.chip matches Some(c) ==> self.chip matches Some(chip) && c@ == chip_pretty_name(chip),
            h.chip is None <==> self.chip is None,
            h.team_name@ == self.team_name@,
            h.game_week@ == "GW"@ + decimal(self.game_week.spec_value() as int),
            h.gw_rank@ == with_commas(self.gw_rank as int),
            h.overall_rank@ == with_commas(self.overall_rank as int),
    {
        let chip = match &self.chip {
            Some(c) => Some(c.pretty_name().to_owned()),
            None => None,
        };
        let mut game_week = String::from_str("GW");
        game_week.append(self.game_week.to_string().as_str());
        TeamHeaderTexts {
            points: decimal_string(self.points),
            chip,
            team_name: self.team_name.clone(),
            game_week,
            gw_rank: separate_with_commas(self.gw_rank),
            overall_rank: separate_with_commas(self.overall_rank),
        }
    }

    /// The corners of the points box: the top ones only when a chip box sits under it, all
    /// of them otherwise.
    pub fn points_box_rounding(&self) -> (r: CornerRounding)
        ensures
            r == (if self.chip is Some { CornerRounding::Top } else { CornerRounding::All }),
    {
        if self.chip.is_some() {
            CornerRounding::Top
        } else {
            CornerRounding::All
        }
    }

    /// The text of each transfer row, in the order of the transfers.
    pub fn transfer_texts(&self) -> (texts: Vec<String>)
        ensures
            texts@.len() == self.transfers@.len(),
            forall|i: int| 0 <= i < texts@.len() ==> (#[trigger] texts@[i])@ == transfer_row_text(self.transfers@[i]),
    {
        let mut texts: Vec<String> = Vec::new();
        let mut i: usize = 0;
        while i < self.transfers.len()
            invariant
                0 <= i <= self.transfers@.len(),
                texts@.len() == i,
                forall|j: int| 0 <= j < i ==> (#[trigger] texts@[j])@ == transfer_row_text(self.transfers@[j]),
            decreases self.transfers@.len() - i,
        {
            texts.push(transfer_text(&self.transfers[i]));
            i = i + 1;
        }
        texts
    }
}

} // verus!
