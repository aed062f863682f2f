//! Players that only one team of a group owns, gathered per team for the differentials image.
use super::player_card::{new_card, PlayerCard, PlayerGameInfo, PlayerInfo};
use crate::groups::{keys_distinct, push_to_group, pushed_to_group};
use super::bands::{
    band_count, band_len, band_top, first_heights, is_size_order, lemma_band_count,
    lemma_box_widths, lemma_tallest_bounds, order_by_size, tallest, Placement, nonincreasing,
    lemma_size_order_nonincreasing, lemma_first_heights_reach_band_tops, lemma_band_top_monotone,
    lemma_band_within_height, lemma_size_order_unique, size_order,
    lemma_first_heights_monotone,
};
use super::util::{calculate_player_card_xs, card_x, lemma_card_x_bounds};
use vstd::prelude::*;

verus! {

/// Identifies a team in the image: the team's name and its manager's name.
#[derive(Debug)]
pub struct DifferentialKey {
    pub team_name: String,
    pub user_first_name: String,
    pub user_last_name: String,
}

/// The heading of a team: `first last (team)`.
pub open spec fn team_heading(first: Seq<char>, last: Seq<char>, team: Seq<char>) -> Seq<char> {
    first + " "@ + last + " ("@ + team + ")"@
}

impl DifferentialKey {
    pub fn to_key_string(&self) -> (s: String)
        ensures
            s@ == team_heading(self.user_first_name@, self.user_last_name@, self.team_name@),
    {
        let mut s = self.user_first_name.clone();
        s.append(" ");
        s.append(self.user_last_name.as_str());
        s.append(" (");
        s.append(self.team_name.as_str());
        s.append(")");
        s
    }
}

/// The card of a differential: the player with one line of free text, the opponents.
pub open spec fn differential_card(
    player_name: Seq<char>,
    code: i32,
    is_captain: bool,
    is_vice_captain: bool,
    opponents: String,
) -> PlayerCard {
    new_card(player_name, code as u32, seq![PlayerGameInfo::FreeText(opponents)], is_captain, is_vice_captain)
}

/// For each team, by its heading, the cards of the players only that team owns, in the
/// order the teams first appeared.
#[derive(Debug)]
pub struct Differentials {
    pub user_to_differentials: Vec<(String, Vec<PlayerInfo>)>,
}

impl Differentials {
    /// No team heading occurs twice.
    pub open spec fn wf(&self) -> bool {
        keys_distinct(self.user_to_differentials@)
    }

    pub fn new() -> (d: Self)
        ensures
            d.wf(),
            d.user_to_differentials@.len() == 0,
    {
        Self { user_to_differentials: Vec::new() }
    }

    /// Adds a differential card under the team's heading.
    pub fn add_differential(
        self,
        key: DifferentialKey,
        player_name: String,
        code: i32,
        is_captain: bool,
        is_vice_captain: bool,
        opponents: String,
    ) -> (d: Self)
        requires
            self.wf(),
        ensures
            d.wf(),
            exists|card: PlayerInfo|
                card@ == differential_card(player_name@, code, is_captain, is_vice_captain, opponents)
                && pushed_to_group(
                    self.user_to_differentials@,
                    team_heading(key.user_first_name@, key.user_last_name@, key.team_name@),
                    card,
                    d.user_to_differentials@,
                ),
    {
        let ghost name_view = player_name@;
        let ghost opp = opponents;
        let mut games: Vec<PlayerGameInfo> = Vec::new();
        games.push(PlayerGameInfo::FreeText(opponents));
        assert(games@ =~= seq![PlayerGameInfo::FreeText(opp)]);
        let card = PlayerInfo::new(player_name, code as u32, games, is_captain, is_vice_captain);
        let ghost c = card;
        let mut d = self;
        push_to_group(&mut d.user_to_differentials, key.to_key_string(), card);
        assert(c@ == differential_card(name_view, code, is_captain, is_vice_captain, opp));
        d
    }
}

impl Default for Differentials {
    fn default() -> (d: Self)
        ensures
            d.wf(),
            d.user_to_differentials@.len() == 0,
    {
        Self::new()
    }
}

/// The layout of the differentials image.
#[derive(Debug, Clone, Copy)]
pub struct DifferentialsRenderer {
    pub width: u32,
    pub team_boxes_per_row: u32,
    pub columns_per_team_box: u32,
    pub team_box_title_height: u32,
    pub player_row_height: u32,
    pub player_card_width: u32,
    pub internal_vertical_padding: u32,
}

impl Default for DifferentialsRenderer {
    fn default() -> (r: Self)
        ensures
            r.width == 1000 && r.team_boxes_per_row == 2 && r.columns_per_team_box == 2
                && r.team_box_title_height == 100 && r.player_row_height == 250
                && r.player_card_width == 175 && r.internal_vertical_padding == 20,
    {
        Self {
            width: 1000,
            team_boxes_per_row: 2,
            columns_per_team_box: 2,
            team_box_title_height: 100,
            player_row_height: 250,
            player_card_width: 175,
            internal_vertical_padding: 20,
        }
    }
}

/// The height of a team box holding `num_players` cards: the title, then one row of cards
/// for every `columns` players or part thereof.
pub open spec fn team_box_height(r: DifferentialsRenderer, num_players: int) -> int {
    r.team_box_title_height + ((num_players + r.columns_per_team_box - 1) / (r.columns_per_team_box as int))
        * r.player_row_height
}

impl DifferentialsRenderer {
    pub fn calculate_team_box_height(&self, team_box: &(String, Vec<PlayerInfo>)) -> (h: usize)
        requires
            self.columns_per_team_box > 0,
            team_box.1.len() + self.columns_per_team_box <= usize::MAX,
            team_box_height(*self, team_box.1.len() as int) <= usize::MAX,
        ensures
            h == team_box_height(*self, team_box.1.len() as int),
    {
        let players = &team_box.1;
        let cols = self.columns_per_team_box as usize;
        let player_rows = (players.len() + cols - 1) / cols;
        proof {
            let rows = player_rows as int;
            let rh = self.player_row_height as int;
            assert(0 <= rows * rh) by (nonlinear_arith)
                requires 0 <= rows, 0 <= rh;
        }
        self.team_box_title_height as usize + (player_rows * self.player_row_height as usize)
    }
}

/// Where a team's box of the differentials image is drawn: its title band and its cards.
#[derive(Debug)]
pub struct DifferentialBoxLayout {
    /// The position of the team in `Differentials::user_to_differentials`.
    pub entry: usize,
    pub title: Placement,
    /// The cards, in the order of the team's players.
    pub cards: Vec<Placement>,
}

/// A band of team boxes side by side, with a divider down the middle of their titles.
#[derive(Debug)]
pub struct DifferentialsBand {
    pub top: u32,
    pub boxes: Vec<DifferentialBoxLayout>,
    pub divider_x: u32,
    pub divider_bottom: u32,
}

/// Where everything of the differentials image goes.
#[derive(Debug)]
pub struct DifferentialsLayout {
    pub width: u32,
    pub height: u32,
    pub bands: Vec<DifferentialsBand>,
}

/// How many cards each team has.
pub open spec fn differential_counts(g: Seq<(String, Vec<PlayerInfo>)>) -> Seq<usize> {
    g.map_values(|e: (String, Vec<PlayerInfo>)| e.1@.len() as usize)
}

/// The heights of the boxes in drawing order.
pub open spec fn differential_heights(r: DifferentialsRenderer, counts: Seq<usize>, order: Seq<usize>) -> Seq<int> {
    Seq::new(order.len(), |p: int| team_box_height(r, counts[order[p] as int] as int))
}

/// The card in row `row` and column `col` of a box with `count` cards, whose left edge is `x`,
/// of width `box_w`, in a band whose top is `top`.
pub open spec fn differential_card_at(
    r: DifferentialsRenderer,
    x: int,
    box_w: int,
    top: int,
    count: int,
    row: int,
    col: int,
) -> Placement {
    let cols = r.columns_per_team_box as int;
    let in_row = band_len(count, cols, row);
    Placement {
        x: (x + card_x(r.player_card_width as int, box_w, in_row, col)) as u32,
        y: (top + r.team_box_title_height + row * r.player_row_height + r.internal_vertical_padding) as u32,
        width: r.player_card_width,
        height: (r.player_row_height - 2 * r.internal_vertical_padding) as u32,
    }
}

/// `bx` draws team `entry`, with `count` cards, at `x` in the band whose top is `top`: its
/// cards `columns_per_team_box` to a row, each row spread over the box.
pub open spec fn is_differential_box(
    r: DifferentialsRenderer,
    entry: int,
    count: int,
    x: int,
    box_w: int,
    top: int,
    bx: DifferentialBoxLayout,
) -> bool {
    let cols = r.columns_per_team_box as int;
    &&& bx.entry == entry
    &&& bx.title == Placement { x: x as u32, y: top as u32, width: box_w as u32, height: r.team_box_title_height }
    &&& bx.cards@.len() == count
    &&& forall|row: int, col: int|
        0 <= row < band_count(count, cols) && 0 <= col < band_len(count, cols, row) ==> #[trigger] bx.cards@[row
            * cols + col] == differential_card_at(r, x, box_w, top, count, row, col)
}

/// `band` is band `b` of the boxes in the order `order`.
pub open spec fn is_differentials_band(
    r: DifferentialsRenderer,
    counts: Seq<usize>,
    order: Seq<usize>,
    b: int,
    band: DifferentialsBand,
) -> bool {
    let n = counts.len() as int;
    let k = r.team_boxes_per_row as int;
    let size = band_len(n, k, b);
    let box_w = r.width / 2;
    let top = band_top(differential_heights(r, counts, order), k, b);
    &&& band.top == top
    &&& band.divider_x == r.width / 2
    &&& band.divider_bottom == top + r.team_box_title_height
    &&& band.boxes@.len() == size
    &&& forall|c: int|
        0 <= c < size ==> is_differential_box(
            r,
            order[b * k + c] as int,
            counts[order[b * k + c] as int] as int,
            c * box_w,
            box_w as int,
            top,
            #[trigger] band.boxes@[c],
        )
}

/// The height of the image of teams with `counts` cards each: the first boxes of the bands
/// added up, the teams with the most cards first.
pub open spec fn differentials_height(r: DifferentialsRenderer, counts: Seq<usize>) -> int {
    let n = counts.len() as int;
    let k = r.team_boxes_per_row as int;
    first_heights(differential_heights(r, counts, size_order(counts)), k, band_count(n, k))
}

/// In the order of the sizes, the box heights are never negative and never grow.
proof fn lemma_differential_heights_shape(r: DifferentialsRenderer, counts: Seq<usize>, order: Seq<usize>)
    requires
        is_size_order(counts, order),
        r.columns_per_team_box > 0,
        counts.len() <= usize::MAX,
        forall|i: int| 0 <= i < counts.len() ==> #[trigger] counts[i] <= i64::MAX,
    ensures
        forall|p: int| 0 <= p < order.len() ==> #[trigger] order[p] < counts.len(),
        order.len() == counts.len(),
        forall|p: int| 0 <= p < order.len() ==> 0 <= #[trigger] differential_heights(r, counts, order)[p],
        nonincreasing(differential_heights(r, counts, order)),
{
    let hs = differential_heights(r, counts, order);
    lemma_size_order_nonincreasing(counts, order);
    assert forall|p: int| 0 <= p < hs.len() implies 0 <= #[trigger] hs[p] by {
        let c1 = counts[order[p] as int] as int;
        let cols = r.columns_per_team_box as int;
        let q1 = (c1 + cols - 1) / cols;
        vstd::arithmetic::div_mod::lemma_div_pos_is_pos(c1 + cols - 1, cols);
        assert(0 <= q1 * (r.player_row_height as int)) by (nonlinear_arith)
            requires q1 >= 0, r.player_row_height >= 0;
    }
    assert(nonincreasing(hs)) by {
        assert forall|p: int, q: int| 0 <= p <= q < hs.len() implies #[trigger] hs[p] >= #[trigger] hs[q] by {
            let c1 = counts[order[p] as int] as int;
            let c2 = counts[order[q] as int] as int;
            assert(c1 >= c2);
            let cols = r.columns_per_team_box as int;
            vstd::arithmetic::div_mod::lemma_div_is_ordered(c2 + cols - 1, c1 + cols - 1, cols);
            let q1 = (c1 + cols - 1) / cols;
            let q2 = (c2 + cols - 1) / cols;
            vstd::arithmetic::div_mod::lemma_div_pos_is_pos(c2 + cols - 1, cols);
            assert(q1 * (r.player_row_height as int) >= q2 * (r.player_row_height as int)) by (nonlinear_arith)
                requires q1 >= q2, q2 >= 0, r.player_row_height >= 0;
        }
    }
}

/// The boxes fit in the `u32` coordinates they are drawn with.
pub open spec fn differentials_fit(r: DifferentialsRenderer, counts: Seq<usize>) -> bool {
    let n = counts.len() as int;
    let k = r.team_boxes_per_row as int;
    let cols = r.columns_per_team_box as int;
    &&& k > 0
    &&& cols > 0
    &&& r.player_row_height >= 2 * r.internal_vertical_padding
    &&& r.player_card_width * cols <= u32::MAX
    &&& (k - 1) * (r.width / 2) + r.width / 2 + cols * r.player_card_width <= u32::MAX
    &&& differentials_height(r, counts) <= u32::MAX
    &&& forall|e: int| 0 <= e < n ==> #[trigger] counts[e] + cols <= u32::MAX
}

/// `l` lays out teams with `counts` cards each: the teams with the most cards first (ties in
/// their order), `team_boxes_per_row` boxes of half the width to a band, each band as tall as
/// its tallest box, and the image as tall as the first boxes of the bands.
pub open spec fn is_differentials_layout(r: DifferentialsRenderer, counts: Seq<usize>, l: DifferentialsLayout) -> bool {
    exists|order: Seq<usize>|
        is_size_order(counts, order) && {
            let n = counts.len() as int;
            let k = r.team_boxes_per_row as int;
            &&& l.width == r.width
            &&& l.height == first_heights(differential_heights(r, counts, order), k, band_count(n, k))
            &&& l.bands@.len() == band_count(n, k)
            &&& forall|b: int|
                0 <= b < band_count(n, k) ==> is_differentials_band(r, counts, order, b, #[trigger] l.bands@[b])
        }
}

impl DifferentialsRenderer {
    fn box_layout(&self, entry: usize, count: usize, x: u32, box_w: u32, top: u32) -> (bx: DifferentialBoxLayout)
        requires
            self.columns_per_team_box > 0,
            self.player_row_height >= 2 * self.internal_vertical_padding,
            self.player_card_width * self.columns_per_team_box <= u32::MAX,
            x + box_w + self.columns_per_team_box * self.player_card_width <= u32::MAX,
            count + self.columns_per_team_box <= u32::MAX,
            top + team_box_height(*self, count as int) <= u32::MAX,
        ensures
            is_differential_box(*self, entry as int, count as int, x as int, box_w as int, top as int, bx),
    {
        let cols = self.columns_per_team_box as usize;
        let card_w = self.player_card_width;
        let row_h = self.player_row_height;
        let card_h = row_h - 2 * self.internal_vertical_padding;
        let ghost bc = band_count(count as int, cols as int);
        proof {
            lemma_band_count(count as int, cols as int, 0);
            assert(team_box_height(*self, count as int) == self.team_box_title_height + bc * row_h);
        }
        let mut cards: Vec<Placement> = Vec::new();
        let mut start: usize = 0;
        let mut row: usize = 0;
        while start < count
            invariant
                cols == self.columns_per_team_box,
                cols > 0,
                card_w == self.player_card_width,
                row_h == self.player_row_height,
                card_h == row_h - 2 * self.internal_vertical_padding,
                self.player_row_height >= 2 * self.internal_vertical_padding,
                self.player_card_width * self.columns_per_team_box <= u32::MAX,
                x + box_w + self.columns_per_team_box * self.player_card_width <= u32::MAX,
                count + self.columns_per_team_box <= u32::MAX,
                bc == band_count(count as int, cols as int),
                top + self.team_box_title_height + bc * row_h <= u32::MAX,
                start == (if row * cols <= count { row * cols } else { count as int }),
                start < count ==> row < bc,
                start >= count ==> row == bc,
                cards@.len() == start,
                forall|r2: int, c2: int|
                    0 <= r2 < row && 0 <= c2 < band_len(count as int, cols as int, r2) ==> #[trigger] cards@[r2
                        * cols + c2] == differential_card_at(*self, x as int, box_w as int, top as int, count as int, r2, c2),
            decreases count - start,
        {
            proof {
                lemma_band_count(count as int, cols as int, row as int);
                assert(start == row * cols);
                assert((row as int + 1) * (cols as int) == row * cols + cols) by (nonlinear_arith);
                assert((row as int) * (row_h as int) + row_h <= bc * (row_h as int)) by (nonlinear_arith)
                    requires row < bc, 0 <= row_h;
                assert(0 <= (row as int) * (row_h as int)) by (nonlinear_arith)
                    requires 0 <= row, 0 <= row_h;
            }
            let in_row: usize = if count - start < cols { count - start } else { cols };
            assert(in_row == band_len(count as int, cols as int, row as int));
            proof {
                assert((card_w as int) * (in_row as int) <= (card_w as int) * (cols as int)) by (nonlinear_arith)
                    requires in_row <= cols, 0 <= card_w;
                assert((cols as int) * (card_w as int) == (card_w as int) * (cols as int)) by (nonlinear_arith);
            }
            let xs = calculate_player_card_xs(card_w, box_w, in_row as u32);
            let y = top + self.team_box_title_height + (row as u32) * row_h + self.internal_vertical_padding;
            let mut col: usize = 0;
            while col < in_row
                invariant
                    cols == self.columns_per_team_box,
                    cols > 0,
                    card_w == self.player_card_width,
                    card_h == row_h - 2 * self.internal_vertical_padding,
                    row_h == self.player_row_height,
                    x + box_w + (cols as int) * (card_w as int) <= u32::MAX,
                    start == row * cols,
                    0 < in_row <= cols,
                    in_row == band_len(count as int, cols as int, row as int),
                    xs@.len() == in_row,
                    forall|i: int| 0 <= i < in_row ==> #[trigger] xs@[i] as int == card_x(
                        card_w as int,
                        box_w as int,
                        in_row as int,
                        i,
                    ),
                    y == top + self.team_box_title_height + row * row_h + self.internal_vertical_padding,
                    0 <= col <= in_row,
                    cards@.len() == start + col,
                    forall|r2: int, c2: int|
                        0 <= r2 < row && 0 <= c2 < band_len(count as int, cols as int, r2) ==> #[trigger] cards@[r2
                            * cols + c2] == differential_card_at(
                            *self,
                            x as int,
                            box_w as int,
                            top as int,
                            count as int,
                            r2,
                            c2,
                        ),
                    forall|c2: int| 0 <= c2 < col ==> #[trigger] cards@[start + c2] == differential_card_at(
                        *self,
                        x as int,
                        box_w as int,
                        top as int,
                        count as int,
                        row as int,
                        c2,
                    ),
                decreases in_row - col,
            {
                proof {
                    let w = card_w as int;
                    let n = in_row as int;
                    lemma_card_x_bounds(w, box_w as int, n, col as int);
                    if w * n > box_w {
                        assert((n - 1) * w <= (cols as int) * w) by (nonlinear_arith)
                            requires n <= cols, 0 <= w;
                    }
                    assert(0 <= (cols as int) * w) by (nonlinear_arith)
                        requires 0 <= cols, 0 <= w;
                }
                let ghost before = cards@;
                cards.push(Placement { x: x + xs[col], y, width: card_w, height: card_h });
                proof {
                    assert forall|r2: int, c2: int|
                        0 <= r2 < row && 0 <= c2 < band_len(count as int, cols as int, r2) implies #[trigger] cards@[r2
                            * cols + c2] == differential_card_at(
                            *self,
                            x as int,
                            box_w as int,
                            top as int,
                            count as int,
                            r2,
                            c2,
                        ) by {
                        assert((r2 + 1) * cols == r2 * cols + cols) by (nonlinear_arith);
                        assert(band_len(count as int, cols as int, r2) <= cols);
                        assert(r2 * cols + c2 < start) by (nonlinear_arith)
                            requires
                                0 <= r2 < row,
                                0 <= c2 < band_len(count as int, cols as int, r2),
                                band_len(count as int, cols as int, r2) <= cols,
                                start == row * cols;
                        assert(0 <= r2 * cols + c2) by (nonlinear_arith)
                            requires 0 <= r2, 0 <= c2, 0 <= cols;
                        assert(cards@[r2 * cols + c2] == before[r2 * cols + c2]);
                    }
                    assert forall|c2: int| 0 <= c2 < col + 1 implies #[trigger] cards@[start + c2] == differential_card_at(
                        *self,
                        x as int,
                        box_w as int,
                        top as int,
                        count as int,
                        row as int,
                        c2,
                    ) by {
                        if c2 < col {
                            assert(cards@[start + c2] == before[start + c2]);
                        }
                    }
                }
                col = col + 1;
            }
            proof {
                assert forall|r2: int, c2: int|
                    0 <= r2 < row + 1 && 0 <= c2 < band_len(count as int, cols as int, r2) implies #[trigger] cards@[r2
                        * cols + c2] == differential_card_at(
                        *self,
                        x as int,
                        box_w as int,
                        top as int,
                        count as int,
                        r2,
                        c2,
                    ) by {
                    if r2 == row {
                        assert(cards@[start + c2] == differential_card_at(
                            *self,
                            x as int,
                            box_w as int,
                            top as int,
                            count as int,
                            row as int,
                            c2,
                        ));
                    }
                }
            }
            start = start + in_row;
            row = row + 1;
            proof {
                lemma_band_count(count as int, cols as int, row as int);
                assert((row as int) * (cols as int) == (row as int - 1) * (cols as int) + cols) by (nonlinear_arith);
            }
        }
        DifferentialBoxLayout {
            entry,
            title: Placement { x, y: top, width: box_w, height: self.team_box_title_height },
            cards,
        }
    }

    /// Where everything of the differentials image goes: the teams with the most cards first
    /// (ties keep their order), `team_boxes_per_row` boxes of half the width to a band, each
    /// box's cards `columns_per_team_box` to a row under the team's title.
    pub fn layout(&self, data: &Differentials) -> (l: DifferentialsLayout)
        requires
            differentials_fit(*self, differential_counts(data.user_to_differentials@)),
        ensures
            is_differentials_layout(*self, differential_counts(data.user_to_differentials@), l),
    {
        let ghost g = data.user_to_differentials@;
        let mut counts: Vec<usize> = Vec::new();
        let mut i: usize = 0;
        while i < data.user_to_differentials.len()
            invariant
                g == data.user_to_differentials@,
                0 <= i <= g.len(),
                counts@ == differential_counts(g).take(i as int),
            decreases g.len() - i,
        {
            counts.push(data.user_to_differentials[i].1.len());
            assert(counts@ =~= differential_counts(g).take(i + 1));
            i = i + 1;
        }
        assert(counts@ =~= differential_counts(g));
        let ghost cs = counts@;
        assert(forall|e: int| 0 <= e < cs.len() ==> #[trigger] cs[e] + self.columns_per_team_box <= u32::MAX);
        let order = order_by_size(&counts);
        let ghost os = order@;
        let ghost hs = differential_heights(*self, cs, os);
        let n = counts.len();
        let k = self.team_boxes_per_row as usize;
        let cols = self.columns_per_team_box as usize;
        let box_w = self.width / 2;
        proof {
            lemma_size_order_unique(cs, os);
            lemma_differential_heights_shape(*self, cs, os);
            lemma_band_count(n as int, k as int, 0);
        }
        let mut bands: Vec<DifferentialsBand> = Vec::new();
        let mut start: usize = 0;
        let mut top: u32 = 0;
        let mut total: u32 = 0;
        let ghost mut b: int = 0;
        while start < n
            invariant
                cs == counts@,
                os == order@,
                n == cs.len(),
                os.len() == n,
                forall|p: int| 0 <= p < n ==> #[trigger] os[p] < n,
                is_size_order(cs, os),
                hs == differential_heights(*self, cs, os),
                differentials_fit(*self, cs),
                size_order(cs) == os,
                k == self.team_boxes_per_row,
                cols == self.columns_per_team_box,
                box_w == self.width / 2,
                forall|p: int| 0 <= p < hs.len() ==> 0 <= #[trigger] hs[p],
                nonincreasing(hs),
                0 <= b,
                start == (if b * (k as int) <= n { b * k } else { n as int }),
                start < n ==> b < band_count(n as int, k as int),
                start >= n ==> b == band_count(n as int, k as int),
                top == band_top(hs, k as int, b),
                total == first_heights(hs, k as int, b),
                bands@.len() == b,
                forall|bb: int| 0 <= bb < b ==> is_differentials_band(*self, cs, os, bb, #[trigger] bands@[bb]),
            decreases n - start,
        {
            proof {
                lemma_band_count(n as int, k as int, b);
                assert(start == b * k);
                lemma_band_within_height(hs, k as int, b);
                assert((b + 1) * k == b * k + k) by (nonlinear_arith);
            }
            let size: usize = if n - start < k { n - start } else { k };
            assert(size == band_len(n as int, k as int, b));
            assert(forall|p: int| start <= p < n ==> top + #[trigger] hs[p] <= u32::MAX);
            let mut boxes: Vec<DifferentialBoxLayout> = Vec::new();
            let mut tall: u32 = 0;
            let mut c: usize = 0;
            while c < size
                invariant
                    cs == counts@,
                    os == order@,
                    n == cs.len(),
                    os.len() == n,
                    forall|p: int| 0 <= p < n ==> #[trigger] os[p] < n,
                    hs == differential_heights(*self, cs, os),
                    differentials_fit(*self, cs),
                    forall|p: int| 0 <= p < hs.len() ==> 0 <= #[trigger] hs[p],
                    forall|p: int| start <= p < n ==> top + #[trigger] hs[p] <= u32::MAX,
                    start == b * k,
                    start + size <= n,
                    0 < size <= k,
                    k == self.team_boxes_per_row,
                    cols == self.columns_per_team_box,
                    box_w == self.width / 2,
                    size == band_len(n as int, k as int, b),
                    top == band_top(hs, k as int, b),
                    0 <= c <= size,
                    tall == tallest(hs, start as int, c as int),
                    boxes@.len() == c,
                    forall|c2: int| 0 <= c2 < c ==> is_differential_box(
                        *self,
                        os[b * k + c2] as int,
                        cs[os[b * k + c2] as int] as int,
                        c2 * box_w,
                        box_w as int,
                        top as int,
                        #[trigger] boxes@[c2],
                    ),
                decreases size - c,
            {
                let entry = order[start + c];
                let count = counts[entry];
                assert(hs[start + c] == team_box_height(*self, count as int));
                assert(count + self.columns_per_team_box <= u32::MAX);
                proof {
                    assert((c as int) * (box_w as int) <= (k as int - 1) * (box_w as int)) by (nonlinear_arith)
                        requires c < k, 0 <= box_w;
                    assert(0 <= (c as int) * (box_w as int)) by (nonlinear_arith)
                        requires 0 <= c, 0 <= box_w;
                }
                let x = (c as u32) * box_w;
                let bx = self.box_layout(entry, count, x, box_w, top);
                boxes.push(bx);
                let rows = (count + cols - 1) / cols;
                proof {
                    assert(rows as int == (count + cols - 1) / (cols as int));
                    assert(0 <= (rows as int) * self.player_row_height) by (nonlinear_arith)
                        requires 0 <= rows, 0 <= self.player_row_height;
                    assert((rows as int) <= u32::MAX) by {
                        vstd::arithmetic::div_mod::lemma_div_is_ordered_by_denominator(count + cols - 1, 1, cols as int);
                    }
                }
                let h = self.team_box_title_height + (rows as u32) * self.player_row_height;
                if h > tall {
                    tall = h;
                }
                c = c + 1;
            }
            let ghost old_bands = bands@;
            let band = DifferentialsBand {
                top,
                boxes,
                divider_x: self.width / 2,
                divider_bottom: top + self.team_box_title_height,
            };
            proof {
                assert(hs[start as int] == team_box_height(*self, cs[os[start as int] as int] as int));
                let rows0 = (cs[os[start as int] as int] + cols - 1) / (cols as int);
                vstd::arithmetic::div_mod::lemma_div_is_ordered_by_denominator(
                    cs[os[start as int] as int] + cols - 1,
                    1,
                    cols as int,
                );
                vstd::arithmetic::div_mod::lemma_div_pos_is_pos(cs[os[start as int] as int] + cols - 1, cols as int);
                assert(0 <= rows0 * self.player_row_height) by (nonlinear_arith)
                    requires 0 <= rows0, 0 <= self.player_row_height;
            }
            let first_count = counts[order[start]];
            let first_rows = (first_count + cols - 1) / cols;
            total = total + self.team_box_title_height + (first_rows as u32) * self.player_row_height;
            top = top + tall;
            bands.push(band);
            proof {
                assert(is_differentials_band(*self, cs, os, b, bands@[b]));
                assert forall|bb: int| 0 <= bb < b + 1 implies is_differentials_band(*self, cs, os, bb, #[trigger] bands@[bb]) by {
                    if bb < b {
                        assert(bands@[bb] == old_bands[bb]);
                    }
                }
                b = b + 1;
            }
            start = start + size;
            proof {
                lemma_band_count(n as int, k as int, b);
                assert(b * k == (b - 1) * k + k) by (nonlinear_arith);
            }
        }
        DifferentialsLayout { width: self.width, height: total, bands }
    }
}

/// Every team box lies within the image: the teams come largest first, so each band is as
/// tall as its first box, and the image, as tall as the first boxes added up, reaches the
/// bottom of every box.
pub proof fn lemma_differential_boxes_within_image(r: DifferentialsRenderer, counts: Seq<usize>, l: DifferentialsLayout)
    requires
        differentials_fit(r, counts),
        counts.len() <= usize::MAX,
        forall|i: int| 0 <= i < counts.len() ==> #[trigger] counts[i] <= i64::MAX,
        is_differentials_layout(r, counts, l),
    ensures
        forall|b: int, c: int|
            0 <= b < l.bands@.len() && 0 <= c < l.bands@[b].boxes@.len() ==> l.bands@[b].top + team_box_height(
                r,
                (#[trigger] l.bands@[b].boxes@[c]).cards@.len() as int,
            ) <= l.height,
{
    let order = choose|order: Seq<usize>|
        is_size_order(counts, order) && {
            let n = counts.len() as int;
            let k = r.team_boxes_per_row as int;
            &&& l.width == r.width
            &&& l.height == first_heights(differential_heights(r, counts, order), k, band_count(n, k))
            &&& l.bands@.len() == band_count(n, k)
            &&& forall|b: int| 0 <= b < band_count(n, k) ==> is_differentials_band(r, counts, order, b, #[trigger] l.bands@[b])
        };
    let n = counts.len() as int;
    let k = r.team_boxes_per_row as int;

    let hs = differential_heights(r, counts, order);
    lemma_differential_heights_shape(r, counts, order);
    lemma_band_count(n, k, 0);
    lemma_first_heights_reach_band_tops(hs, k, band_count(n, k));
    assert forall|b: int, c: int|
        0 <= b < l.bands@.len() && 0 <= c < l.bands@[b].boxes@.len() implies l.bands@[b].top + team_box_height(
            r,
            (#[trigger] l.bands@[b].boxes@[c]).cards@.len() as int,
        ) <= l.height by {
        let band = l.bands@[b];
        assert(is_differentials_band(r, counts, order, b, band));
        lemma_band_count(n, k, b);
        assert(0 <= b * k) by (nonlinear_arith)
            requires b >= 0, k > 0;
        assert((b + 1) * k == b * k + k) by (nonlinear_arith);
        let len = band_len(n, k, b);
        assert(b * k + len <= n);
        let bound = hs[0];
        lemma_tallest_bounds(hs, b * k, len, bound);
        assert(hs[b * k + c] == team_box_height(r, band.boxes@[c].cards@.len() as int));
        lemma_band_top_monotone(hs, k, b + 1, band_count(n, k));
    }
}

impl DifferentialsRenderer {
    /// Whether the differentials can be laid out: the image fits its `u32` coordinates.
    pub fn fits(&self, data: &Differentials) -> (b: bool)
        ensures
            b == differentials_fit(*self, differential_counts(data.user_to_differentials@)),
    {
        let ghost counts = differential_counts(data.user_to_differentials@);
        let n = data.user_to_differentials.len();
        let max: u128 = 0xffff_ffff;
        let k = self.team_boxes_per_row as u128;
        let cols = self.columns_per_team_box as u128;
        let half = (self.width / 2) as u128;
        if k == 0 || cols == 0 || (self.player_row_height as u64) < 2 * (self.internal_vertical_padding as u64) {
            return false;
        }
        let card_w = self.player_card_width as u128;
        proof {
            assert(card_w * cols <= 0xffff_ffff * 0xffff_ffff) by (nonlinear_arith)
                requires card_w <= 0xffff_ffff, cols <= 0xffff_ffff;
            assert((k - 1) * half <= 0xffff_ffff * 0xffff_ffff) by (nonlinear_arith)
                requires 1 <= k <= 0xffff_ffff, half <= 0xffff_ffff;
        }
        let row_w = card_w * cols;
        let rest = (k - 1) * half;
        proof {
            let w = self.player_card_width as int;
            let c = self.columns_per_team_box as int;
            assert(c * w == w * c) by (nonlinear_arith);
            assert(row_w == w * c);
            assert(rest == (self.team_boxes_per_row as int - 1) * (self.width / 2) as int);
        }
        if row_w > max || rest + half + row_w > max {
            return false;
        }
        let mut sizes: Vec<usize> = Vec::new();
        let mut e: usize = 0;
        while e < n
            invariant
                n == counts.len(),
                n == data.user_to_differentials@.len(),
                max == 0xffff_ffff,
                cols == self.columns_per_team_box,
                cols > 0,
                counts == differential_counts(data.user_to_differentials@),
                0 <= e <= n,
                sizes@ == counts.take(e as int),
                forall|j: int| 0 <= j < e ==> #[trigger] counts[j] + cols <= u32::MAX,
            decreases n - e,
        {
            let count = data.user_to_differentials[e].1.len();
            assert(count == counts[e as int]);
            if count as u128 + cols > max {
                proof {
                    assert(!(counts[e as int] + cols <= u32::MAX));
                }
                return false;
            }
            sizes.push(count);
            assert(sizes@ =~= counts.take(e + 1));
            e = e + 1;
        }
        assert(sizes@ =~= counts);
        let order = order_by_size(&sizes);
        let ghost os = order@;
        let ghost hs = differential_heights(*self, counts, os);
        let kk = self.team_boxes_per_row as usize;
        let row_h = self.player_row_height as u128;
        proof {
            lemma_size_order_unique(counts, os);
            lemma_differential_heights_shape(*self, counts, os);
            lemma_band_count(n as int, kk as int, 0);
        }
        let mut total: u128 = 0;
        let mut start: usize = 0;
        let ghost mut b: int = 0;
        while start < n
            invariant
                counts == differential_counts(data.user_to_differentials@),
                n == counts.len(),
                n == sizes@.len(),
                sizes@ == counts,
                os == order@,
                os.len() == n,
                forall|p: int| 0 <= p < n ==> #[trigger] os[p] < n,
                forall|j: int| 0 <= j < n ==> #[trigger] counts[j] + cols <= u32::MAX,
                hs == differential_heights(*self, counts, os),
                forall|p: int| 0 <= p < hs.len() ==> 0 <= #[trigger] hs[p],
                size_order(counts) == os,
                max == 0xffff_ffff,
                row_h == self.player_row_height,
                cols == self.columns_per_team_box,
                cols > 0,
                kk == self.team_boxes_per_row,
                kk > 0,
                0 <= b,
                start == (if b * (kk as int) <= n { b * kk } else { n as int }),
                start < n ==> b < band_count(n as int, kk as int),
                start >= n ==> b == band_count(n as int, kk as int),
                total == first_heights(hs, kk as int, b),
                total <= max,
            decreases n - start,
        {
            proof {
                lemma_band_count(n as int, kk as int, b);
                assert(start == b * kk);
            }
            let count = sizes[order[start]];
            assert(count as int + cols <= u32::MAX);
            let rows = (count as u128 + cols - 1) / cols;
            proof {
                vstd::arithmetic::div_mod::lemma_div_is_ordered_by_denominator(count as int + cols - 1, 1, cols as int);
                assert((rows as int) * (row_h as int) <= 0xffff_ffff * 0xffff_ffff) by (nonlinear_arith)
                    requires rows <= 0xffff_ffff, row_h <= 0xffff_ffff;
            }
            assert(hs[start as int] == team_box_height(*self, count as int));
            total = total + self.team_box_title_height as u128 + rows * row_h;
            if total > max {
                proof {
                    assert(first_heights(hs, kk as int, b + 1) == first_heights(hs, kk as int, b) + hs[b * kk]);
                    lemma_first_heights_monotone(hs, kk as int, b + 1, band_count(n as int, kk as int));
                    assert(differentials_height(*self, counts) > u32::MAX);
                }
                return false;
            }
            proof {
                b = b + 1;
                lemma_band_count(n as int, kk as int, b);
                assert(b * kk == (b - 1) * kk + kk) by (nonlinear_arith);
            }
            start = if n - start <= kk { n } else { start + kk };
        }
        true
    }
}

} // verus!
